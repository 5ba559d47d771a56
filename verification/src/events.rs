//! Declarative event matching: which configured conditions an event meets.
//!
//! A window or workspace event carries a modeled container — its name,
//! kind, layout, state flags and window properties as plain values — and
//! a handler fires when every one of its conditions matches the event.
//! Everything here is field equality, ASCII-case-insensitive comparison,
//! or a regular-expression test; running a handler's action is the
//! caller's business.

use vstd::prelude::*;
use crate::order::str_eq;

verus! {

/// What a regular expression's verdict on a text is.  The regex engine
/// computes it from the pattern and the text alone, the same way on every
/// run.
pub uninterp spec fn regex_match(pattern: Seq<char>, text: Seq<char>) -> bool;

#[verifier::external_type_specification]
#[verifier::external_body]
pub struct ExRegex(regex::Regex);

/// Relies on `regex::Regex::new`: compiles a pattern, or fails on a
/// pattern the engine rejects.
#[verifier::external_body]
fn compile(pattern: &str) -> (r: Option<regex::Regex>) {
    regex::Regex::new(pattern).ok()
}

/// A compiled regular expression, kept with the pattern it was compiled
/// from.
pub struct ConfigRegex {
    regex: regex::Regex,
    pattern: String,
}

impl ConfigRegex {
    /// The pattern this regex was compiled from.
    pub closed spec fn pattern_view(&self) -> Seq<char> {
        self.pattern@
    }

    /// Compile a pattern.  `None` exactly when the regex engine rejects
    /// the pattern; which patterns those are is the engine's own rule.
    pub fn new(pattern: &str) -> (r: Option<ConfigRegex>)
        ensures
            r is Some ==> r->0.pattern_view() == pattern@,
    {
        match compile(pattern) {
            Some(regex) => Some(ConfigRegex { regex, pattern: pattern.to_owned() }),
            None => None,
        }
    }

    /// The pattern, for showing or persisting the configuration.
    pub fn pattern(&self) -> (r: &String)
        ensures
            r@ == self.pattern_view(),
    {
        &self.pattern
    }

    /// Relies on `regex::Regex::is_match`: whether the pattern matches
    /// anywhere in the text, a function of the pattern and the text
    /// alone.  The private `regex` field always holds the compilation of
    /// the private `pattern` field, because only `new` builds a value.
    #[verifier::external_body]
    pub(crate) fn is_match(&self, s: &str) -> (r: bool)
        ensures
            r == regex_match(self.pattern_view(), s@),
    {
        self.regex.is_match(s)
    }
}

/// The ASCII lowering of one character.
pub open spec fn lower_char(c: char) -> char {
    if 'A' <= c && c <= 'Z' {
        ((c as u32) + 32) as char
    } else {
        c
    }
}

/// Equality up to ASCII case, as `str::eq_ignore_ascii_case` decides it.
pub open spec fn eq_ignore_ascii_case(a: Seq<char>, b: Seq<char>) -> bool {
    a.len() == b.len() && forall|i: int|
        0 <= i < a.len() ==> lower_char(#[trigger] a[i]) == lower_char(b[i])
}

/// Compare two strings up to ASCII case.
fn str_eq_ignore_ascii_case(a: &str, b: &str) -> (r: bool)
    ensures
        r == eq_ignore_ascii_case(a@, b@),
{
    let an = a.unicode_len();
    let bn = b.unicode_len();
    if an != bn {
        return false;
    }
    let mut i: usize = 0;
    while i < an
        invariant
            0 <= i <= an,
            an == a@.len(),
            an == b@.len(),
            forall|k: int| 0 <= k < i ==> lower_char(#[trigger] a@[k]) == lower_char(b@[k]),
        decreases an - i,
    {
        let ca = lower_char_exec(a.get_char(i));
        let cb = lower_char_exec(b.get_char(i));
        if ca != cb {
            return false;
        }
        i = i + 1;
    }
    true
}

/// Lower one character, as executable code.
fn lower_char_exec(c: char) -> (r: char)
    ensures
        r == lower_char(c),
{
    let cu = c as u32;
    if 65 <= cu && cu <= 90 {
        ((cu + 32) as u8) as char
    } else {
        c
    }
}

/// A string match condition.
pub enum StringMatch {
    /// Exact match.
    Eq(String),
    /// Case-insensitive exact match.
    EqIgnoreCase(String),
    /// Regular expression match.
    Regex(ConfigRegex),
}

/// Does the condition accept the text?
pub open spec fn sm_matches(m: &StringMatch, s: Seq<char>) -> bool {
    match m {
        StringMatch::Eq(v) => s == v@,
        StringMatch::EqIgnoreCase(v) => eq_ignore_ascii_case(s, v@),
        StringMatch::Regex(r) => regex_match(r.pattern_view(), s),
    }
}

/// Does the condition accept the optional text?  An absent text matches
/// nothing.
pub open spec fn sm_matches_option(m: &StringMatch, s: &Option<String>) -> bool {
    match s {
        Some(x) => sm_matches(m, x@),
        None => false,
    }
}

impl StringMatch {
    /// Does the condition accept the text?
    pub fn matches(&self, s: &str) -> (r: bool)
        ensures
            r == sm_matches(self, s@),
    {
        match self {
            StringMatch::Eq(v) => str_eq(s, v.as_str()),
            StringMatch::EqIgnoreCase(v) => str_eq_ignore_ascii_case(s, v.as_str()),
            StringMatch::Regex(r) => r.is_match(s),
        }
    }

    /// Does the condition accept the optional text?
    pub fn matches_option(&self, s: Option<&str>) -> (r: bool)
        ensures
            match s {
                Some(x) => r == sm_matches(self, x@),
                None => r == false,
            },
    {
        match s {
            Some(s) => self.matches(s),
            None => false,
        }
    }
}

/// Type of container.
#[derive(Clone, Copy, PartialEq, Eq, Structural, Debug)]
pub enum NodeType {
    Root,
    Output,
    Con,
    FloatingCon,
    Workspace,
    DockArea,
    Unknown,
}

/// Container layout.
#[derive(Clone, Copy, PartialEq, Eq, Structural, Debug)]
pub enum NodeLayout {
    SplitH,
    SplitV,
    Stacked,
    Tabbed,
    DockArea,
    Output,
    Unknown,
}

/// Floating state of a container.
#[derive(Clone, Copy, PartialEq, Eq, Structural, Debug)]
pub enum NodeFloating {
    AutoOff,
    AutoOn,
    UserOff,
    UserOn,
    Unknown,
}

/// Whether a container is in fullscreen state.
#[derive(Clone, Copy, PartialEq, Eq, Structural, Debug)]
pub enum NodeFullscreenMode {
    NoFullscreen,
    Fullscreen,
    Global,
    Unknown,
}

/// Window event type.
#[derive(Clone, Copy, PartialEq, Eq, Structural, Debug)]
pub enum WindowEventType {
    New,
    Close,
    Focus,
    Title,
    FullscreenMode,
    Move,
    Floating,
    Urgent,
    Mark,
    Unknown,
}

/// Workspace event type.
#[derive(Clone, Copy, PartialEq, Eq, Structural, Debug)]
pub enum WorkspaceEventType {
    Focus,
    Init,
    Empty,
    Urgent,
    Rename,
    Reload,
    Restored,
    Move,
    Unknown,
}

impl NodeType {
    /// Is the container of this type?
    pub fn matches(&self, other: &NodeType) -> (r: bool)
        ensures
            r == (self == other),
    {
        *self == *other
    }
}

impl NodeLayout {
    /// Does the container use this layout?
    pub fn matches(&self, other: &NodeLayout) -> (r: bool)
        ensures
            r == (self == other),
    {
        *self == *other
    }
}

impl NodeFloating {
    /// Is the container in this floating state?
    pub fn matches(&self, other: &NodeFloating) -> (r: bool)
        ensures
            r == (self == other),
    {
        *self == *other
    }
}

impl NodeFullscreenMode {
    /// Is the container in this fullscreen state?
    pub fn matches(&self, other: &NodeFullscreenMode) -> (r: bool)
        ensures
            r == (self == other),
    {
        *self == *other
    }
}

impl WindowEventType {
    /// Is the event of this type?
    pub fn matches(&self, other: &WindowEventType) -> (r: bool)
        ensures
            r == (self == other),
    {
        *self == *other
    }
}

impl WorkspaceEventType {
    /// Is the event of this type?
    pub fn matches(&self, other: &WorkspaceEventType) -> (r: bool)
        ensures
            r == (self == other),
    {
        *self == *other
    }
}

/// A container as an event reports it: the fields conditions can read,
/// as plain values.
pub struct NodeInfo {
    pub name: Option<String>,
    pub node_type: NodeType,
    pub layout: NodeLayout,
    pub floating: NodeFloating,
    pub fullscreen_mode: NodeFullscreenMode,
    pub urgent: bool,
    pub focused: bool,
    pub sticky: bool,
    pub title: Option<String>,
    pub instance: Option<String>,
    pub class: Option<String>,
    pub window_role: Option<String>,
    pub transient_for: Option<String>,
    pub machine: Option<String>,
    pub mark: Option<String>,
}

/// A window event: its type and the container it concerns.
pub struct WindowEvent {
    pub change: WindowEventType,
    pub container: NodeInfo,
}

/// A workspace event: its type and the workspaces it moved between,
/// either of which the window manager may omit.
pub struct WorkspaceEvent {
    pub change: WorkspaceEventType,
    pub old: Option<NodeInfo>,
    pub current: Option<NodeInfo>,
}

/// A shell command to run when a handler fires, with extra environment
/// entries.
pub struct ShellCommand {
    pub command: String,
    pub extra_env: Vec<(String, String)>,
}

/// What to do when a handler fires.
pub enum EventAction {
    ShellCommand(ShellCommand),
}

/// A window event condition.
pub enum WindowEventCondition {
    /// Window event type.
    EventType(WindowEventType),
    /// Container name.
    Name(StringMatch),
    /// Container type.
    NodeType(NodeType),
    /// Container layout.
    NodeLayout(NodeLayout),
    /// Container fullscreen mode.
    NodeFullscreenMode(NodeFullscreenMode),
    /// Container floating status.
    NodeFloating(NodeFloating),
    /// Whether the container has the urgency hint set.
    Urgent(bool),
    /// Whether the container is currently focused.
    Focused(bool),
    /// Whether the window is sticky.
    Sticky(bool),
    /// Window title.
    Title(StringMatch),
    /// Window instance.
    Instance(StringMatch),
    /// Window class name.
    Class(StringMatch),
    /// Window role.
    WindowRole(StringMatch),
    /// Window transient-for.
    TransientFor(StringMatch),
    /// Window machine.
    Machine(StringMatch),
    /// Window mark.
    Mark(StringMatch),
}

/// Does a window event meet the condition?
pub open spec fn wcond_matches(c: &WindowEventCondition, e: &WindowEvent) -> bool {
    match c {
        WindowEventCondition::EventType(v) => v == &e.change,
        WindowEventCondition::Name(v) => sm_matches_option(v, &e.container.name),
        WindowEventCondition::NodeType(v) => v == &e.container.node_type,
        WindowEventCondition::NodeLayout(v) => v == &e.container.layout,
        WindowEventCondition::NodeFullscreenMode(v) => v == &e.container.fullscreen_mode,
        WindowEventCondition::NodeFloating(v) => v == &e.container.floating,
        WindowEventCondition::Urgent(v) => v == &e.container.urgent,
        WindowEventCondition::Focused(v) => v == &e.container.focused,
        WindowEventCondition::Sticky(v) => v == &e.container.sticky,
        WindowEventCondition::Title(v) => sm_matches_option(v, &e.container.title),
        WindowEventCondition::Instance(v) => sm_matches_option(v, &e.container.instance),
        WindowEventCondition::Class(v) => sm_matches_option(v, &e.container.class),
        WindowEventCondition::WindowRole(v) => sm_matches_option(v, &e.container.window_role),
        WindowEventCondition::TransientFor(v) => sm_matches_option(v, &e.container.transient_for),
        WindowEventCondition::Machine(v) => sm_matches_option(v, &e.container.machine),
        WindowEventCondition::Mark(v) => sm_matches_option(v, &e.container.mark),
    }
}

/// Match an optional string field against a condition.
fn match_opt(v: &StringMatch, s: &Option<String>) -> (r: bool)
    ensures
        r == sm_matches_option(v, s),
{
    match s {
        Some(x) => v.matches(x.as_str()),
        None => false,
    }
}

impl WindowEventCondition {
    /// Does a window event meet the condition?
    pub fn matches(&self, event: &WindowEvent) -> (r: bool)
        ensures
            r == wcond_matches(self, event),
    {
        match self {
            Self::EventType(v) => v.matches(&event.change),
            Self::Name(v) => match_opt(v, &event.container.name),
            Self::NodeType(v) => v.matches(&event.container.node_type),
            Self::NodeLayout(v) => v.matches(&event.container.layout),
            Self::NodeFullscreenMode(v) => v.matches(&event.container.fullscreen_mode),
            Self::NodeFloating(v) => v.matches(&event.container.floating),
            Self::Urgent(v) => *v == event.container.urgent,
            Self::Focused(v) => *v == event.container.focused,
            Self::Sticky(v) => *v == event.container.sticky,
            Self::Title(v) => match_opt(v, &event.container.title),
            Self::Instance(v) => match_opt(v, &event.container.instance),
            Self::Class(v) => match_opt(v, &event.container.class),
            Self::WindowRole(v) => match_opt(v, &event.container.window_role),
            Self::TransientFor(v) => match_opt(v, &event.container.transient_for),
            Self::Machine(v) => match_opt(v, &event.container.machine),
            Self::Mark(v) => match_opt(v, &event.container.mark),
        }
    }
}

/// A workspace event condition, over the old or the current workspace.
pub enum WorkspaceEventCondition {
    EventType(WorkspaceEventType),
    OldName(StringMatch),
    OldNodeType(NodeType),
    OldNodeLayout(NodeLayout),
    OldNodeFullscreenMode(NodeFullscreenMode),
    OldNodeFloating(NodeFloating),
    OldUrgent(bool),
    OldFocused(bool),
    OldSticky(bool),
    OldTitle(StringMatch),
    OldInstance(StringMatch),
    OldClass(StringMatch),
    OldWindowRole(StringMatch),
    OldTransientFor(StringMatch),
    OldMachine(StringMatch),
    OldMark(StringMatch),
    CurrentName(StringMatch),
    CurrentNodeType(NodeType),
    CurrentNodeLayout(NodeLayout),
    CurrentNodeFullscreenMode(NodeFullscreenMode),
    CurrentNodeFloating(NodeFloating),
    CurrentUrgent(bool),
    CurrentFocused(bool),
    CurrentSticky(bool),
    CurrentTitle(StringMatch),
    CurrentInstance(StringMatch),
    CurrentClass(StringMatch),
    CurrentWindowRole(StringMatch),
    CurrentTransientFor(StringMatch),
    CurrentMachine(StringMatch),
    CurrentMark(StringMatch),
}

/// Does a workspace event meet the condition?
pub open spec fn wscond_matches(c: &WorkspaceEventCondition, e: &WorkspaceEvent) -> bool {
    match c {
        WorkspaceEventCondition::EventType(v) => v == &e.change,
        WorkspaceEventCondition::OldName(v) => match &e.old {
            Some(c) => sm_matches_option(v, &c.name),
            None => false,
        },
        WorkspaceEventCondition::OldNodeType(v) => match &e.old {
            Some(c) => v == &c.node_type,
            None => false,
        },
        WorkspaceEventCondition::OldNodeLayout(v) => match &e.old {
            Some(c) => v == &c.layout,
            None => false,
        },
        WorkspaceEventCondition::OldNodeFullscreenMode(v) => match &e.old {
            Some(c) => v == &c.fullscreen_mode,
            None => false,
        },
        WorkspaceEventCondition::OldNodeFloating(v) => match &e.old {
            Some(c) => v == &c.floating,
            None => false,
        },
        WorkspaceEventCondition::OldUrgent(v) => match &e.old {
            Some(c) => v == &c.urgent,
            None => false,
        },
        WorkspaceEventCondition::OldFocused(v) => match &e.old {
            Some(c) => v == &c.focused,
            None => false,
        },
        WorkspaceEventCondition::OldSticky(v) => match &e.old {
            Some(c) => v == &c.sticky,
            None => false,
        },
        WorkspaceEventCondition::OldTitle(v) => match &e.old {
            Some(c) => sm_matches_option(v, &c.title),
            None => false,
        },
        WorkspaceEventCondition::OldInstance(v) => match &e.old {
            Some(c) => sm_matches_option(v, &c.instance),
            None => false,
        },
        WorkspaceEventCondition::OldClass(v) => match &e.old {
            Some(c) => sm_matches_option(v, &c.class),
            None => false,
        },
        WorkspaceEventCondition::OldWindowRole(v) => match &e.old {
            Some(c) => sm_matches_option(v, &c.window_role),
            None => false,
        },
        WorkspaceEventCondition::OldTransientFor(v) => match &e.old {
            Some(c) => sm_matches_option(v, &c.transient_for),
            None => false,
        },
        WorkspaceEventCondition::OldMachine(v) => match &e.old {
            Some(c) => sm_matches_option(v, &c.machine),
            None => false,
        },
        WorkspaceEventCondition::OldMark(v) => match &e.old {
            Some(c) => sm_matches_option(v, &c.mark),
            None => false,
        },
        WorkspaceEventCondition::CurrentName(v) => match &e.current {
            Some(c) => sm_matches_option(v, &c.name),
            None => false,
        },
        WorkspaceEventCondition::CurrentNodeType(v) => match &e.current {
            Some(c) => v == &c.node_type,
            None => false,
        },
        WorkspaceEventCondition::CurrentNodeLayout(v) => match &e.current {
            Some(c) => v == &c.layout,
            None => false,
        },
        WorkspaceEventCondition::CurrentNodeFullscreenMode(v) => match &e.current {
            Some(c) => v == &c.fullscreen_mode,
            None => false,
        },
        WorkspaceEventCondition::CurrentNodeFloating(v) => match &e.current {
            Some(c) => v == &c.floating,
            None => false,
        },
        WorkspaceEventCondition::CurrentUrgent(v) => match &e.current {
            Some(c) => v == &c.urgent,
            None => false,
        },
        WorkspaceEventCondition::CurrentFocused(v) => match &e.current {
            Some(c) => v == &c.focused,
            None => false,
        },
        WorkspaceEventCondition::CurrentSticky(v) => match &e.current {
            Some(c) => v == &c.sticky,
            None => false,
        },
        WorkspaceEventCondition::CurrentTitle(v) => match &e.current {
            Some(c) => sm_matches_option(v, &c.title),
            None => false,
        },
        WorkspaceEventCondition::CurrentInstance(v) => match &e.current {
            Some(c) => sm_matches_option(v, &c.instance),
            None => false,
        },
        WorkspaceEventCondition::CurrentClass(v) => match &e.current {
            Some(c) => sm_matches_option(v, &c.class),
            None => false,
        },
        WorkspaceEventCondition::CurrentWindowRole(v) => match &e.current {
            Some(c) => sm_matches_option(v, &c.window_role),
            None => false,
        },
        WorkspaceEventCondition::CurrentTransientFor(v) => match &e.current {
            Some(c) => sm_matches_option(v, &c.transient_for),
            None => false,
        },
        WorkspaceEventCondition::CurrentMachine(v) => match &e.current {
            Some(c) => sm_matches_option(v, &c.machine),
            None => false,
        },
        WorkspaceEventCondition::CurrentMark(v) => match &e.current {
            Some(c) => sm_matches_option(v, &c.mark),
            None => false,
        },
    }
}

/// Match the `name` field of one side's container, when that side exists.
fn side_name(v: &StringMatch, side: &Option<NodeInfo>) -> (r: bool)
    ensures
        r == match side {
            Some(c) => sm_matches_option(v, &c.name),
            None => false,
        },
{
    match side {
        Some(c) => match_opt(v, &c.name),
        None => false,
    }
}

/// Match the `title` field of one side's container, when that side exists.
fn side_title(v: &StringMatch, side: &Option<NodeInfo>) -> (r: bool)
    ensures
        r == match side {
            Some(c) => sm_matches_option(v, &c.title),
            None => false,
        },
{
    match side {
        Some(c) => match_opt(v, &c.title),
        None => false,
    }
}

/// Match the `instance` field of one side's container, when that side exists.
fn side_instance(v: &StringMatch, side: &Option<NodeInfo>) -> (r: bool)
    ensures
        r == match side {
            Some(c) => sm_matches_option(v, &c.instance),
            None => false,
        },
{
    match side {
        Some(c) => match_opt(v, &c.instance),
        None => false,
    }
}

/// Match the `class` field of one side's container, when that side exists.
fn side_class_name(v: &StringMatch, side: &Option<NodeInfo>) -> (r: bool)
    ensures
        r == match side {
            Some(c) => sm_matches_option(v, &c.class),
            None => false,
        },
{
    match side {
        Some(c) => match_opt(v, &c.class),
        None => false,
    }
}

/// Match the `window_role` field of one side's container, when that side exists.
fn side_window_role(v: &StringMatch, side: &Option<NodeInfo>) -> (r: bool)
    ensures
        r == match side {
            Some(c) => sm_matches_option(v, &c.window_role),
            None => false,
        },
{
    match side {
        Some(c) => match_opt(v, &c.window_role),
        None => false,
    }
}

/// Match the `transient_for` field of one side's container, when that side exists.
fn side_transient_for(v: &StringMatch, side: &Option<NodeInfo>) -> (r: bool)
    ensures
        r == match side {
            Some(c) => sm_matches_option(v, &c.transient_for),
            None => false,
        },
{
    match side {
        Some(c) => match_opt(v, &c.transient_for),
        None => false,
    }
}

/// Match the `machine` field of one side's container, when that side exists.
fn side_machine(v: &StringMatch, side: &Option<NodeInfo>) -> (r: bool)
    ensures
        r == match side {
            Some(c) => sm_matches_option(v, &c.machine),
            None => false,
        },
{
    match side {
        Some(c) => match_opt(v, &c.machine),
        None => false,
    }
}

/// Match the `mark` field of one side's container, when that side exists.
fn side_mark(v: &StringMatch, side: &Option<NodeInfo>) -> (r: bool)
    ensures
        r == match side {
            Some(c) => sm_matches_option(v, &c.mark),
            None => false,
        },
{
    match side {
        Some(c) => match_opt(v, &c.mark),
        None => false,
    }
}

/// Compare the `node_type` field of one side's container, when that side exists.
fn side_node_type(v: &NodeType, side: &Option<NodeInfo>) -> (r: bool)
    ensures
        r == match side {
            Some(c) => v == &c.node_type,
            None => false,
        },
{
    match side {
        Some(c) => v.matches(&c.node_type),
        None => false,
    }
}

/// Compare the `layout` field of one side's container, when that side exists.
fn side_layout(v: &NodeLayout, side: &Option<NodeInfo>) -> (r: bool)
    ensures
        r == match side {
            Some(c) => v == &c.layout,
            None => false,
        },
{
    match side {
        Some(c) => v.matches(&c.layout),
        None => false,
    }
}

/// Compare the `fullscreen_mode` field of one side's container, when that side exists.
fn side_fullscreen_mode(v: &NodeFullscreenMode, side: &Option<NodeInfo>) -> (r: bool)
    ensures
        r == match side {
            Some(c) => v == &c.fullscreen_mode,
            None => false,
        },
{
    match side {
        Some(c) => v.matches(&c.fullscreen_mode),
        None => false,
    }
}

/// Compare the `floating` field of one side's container, when that side exists.
fn side_floating(v: &NodeFloating, side: &Option<NodeInfo>) -> (r: bool)
    ensures
        r == match side {
            Some(c) => v == &c.floating,
            None => false,
        },
{
    match side {
        Some(c) => v.matches(&c.floating),
        None => false,
    }
}

/// Compare the `urgent` flag of one side's container, when that side exists.
fn side_urgent(v: bool, side: &Option<NodeInfo>) -> (r: bool)
    ensures
        r == match side {
            Some(c) => v == c.urgent,
            None => false,
        },
{
    match side {
        Some(c) => v == c.urgent,
        None => false,
    }
}

/// Compare the `focused` flag of one side's container, when that side exists.
fn side_focused(v: bool, side: &Option<NodeInfo>) -> (r: bool)
    ensures
        r == match side {
            Some(c) => v == c.focused,
            None => false,
        },
{
    match side {
        Some(c) => v == c.focused,
        None => false,
    }
}

/// Compare the `sticky` flag of one side's container, when that side exists.
fn side_sticky(v: bool, side: &Option<NodeInfo>) -> (r: bool)
    ensures
        r == match side {
            Some(c) => v == c.sticky,
            None => false,
        },
{
    match side {
        Some(c) => v == c.sticky,
        None => false,
    }
}

impl WorkspaceEventCondition {
    /// Does a workspace event meet the condition?
    #[verifier::rlimit(50)]
    pub fn matches(&self, event: &WorkspaceEvent) -> (r: bool)
        ensures
            r == wscond_matches(self, event),
    {
        match self {
            Self::EventType(v) => v.matches(&event.change),
            Self::OldName(v) => side_name(v, &event.old),
            Self::OldNodeType(v) => side_node_type(v, &event.old),
            Self::OldNodeLayout(v) => side_layout(v, &event.old),
            Self::OldNodeFullscreenMode(v) => side_fullscreen_mode(v, &event.old),
            Self::OldNodeFloating(v) => side_floating(v, &event.old),
            Self::OldUrgent(v) => side_urgent(*v, &event.old),
            Self::OldFocused(v) => side_focused(*v, &event.old),
            Self::OldSticky(v) => side_sticky(*v, &event.old),
            Self::OldTitle(v) => side_title(v, &event.old),
            Self::OldInstance(v) => side_instance(v, &event.old),
            Self::OldClass(v) => side_class_name(v, &event.old),
            Self::OldWindowRole(v) => side_window_role(v, &event.old),
            Self::OldTransientFor(v) => side_transient_for(v, &event.old),
            Self::OldMachine(v) => side_machine(v, &event.old),
            Self::OldMark(v) => side_mark(v, &event.old),
            Self::CurrentName(v) => side_name(v, &event.current),
            Self::CurrentNodeType(v) => side_node_type(v, &event.current),
            Self::CurrentNodeLayout(v) => side_layout(v, &event.current),
            Self::CurrentNodeFullscreenMode(v) => side_fullscreen_mode(v, &event.current),
            Self::CurrentNodeFloating(v) => side_floating(v, &event.current),
            Self::CurrentUrgent(v) => side_urgent(*v, &event.current),
            Self::CurrentFocused(v) => side_focused(*v, &event.current),
            Self::CurrentSticky(v) => side_sticky(*v, &event.current),
            Self::CurrentTitle(v) => side_title(v, &event.current),
            Self::CurrentInstance(v) => side_instance(v, &event.current),
            Self::CurrentClass(v) => side_class_name(v, &event.current),
            Self::CurrentWindowRole(v) => side_window_role(v, &event.current),
            Self::CurrentTransientFor(v) => side_transient_for(v, &event.current),
            Self::CurrentMachine(v) => side_machine(v, &event.current),
            Self::CurrentMark(v) => side_mark(v, &event.current),
        }
    }
}

/// A window event handler: conditions, and what to do when all hold.
pub struct WindowEventHandler {
    pub condition_list: Vec<WindowEventCondition>,
    pub action: EventAction,
}

/// A workspace event handler: conditions, and what to do when all hold.
pub struct WorkspaceEventHandler {
    pub condition_list: Vec<WorkspaceEventCondition>,
    pub action: EventAction,
}

/// Does a window event meet every condition of the list?
pub open spec fn all_wconds(cs: Seq<WindowEventCondition>, e: &WindowEvent) -> bool {
    forall|i: int| 0 <= i < cs.len() ==> wcond_matches(&cs[i], e)
}

/// Does a workspace event meet every condition of the list?
pub open spec fn all_wsconds(cs: Seq<WorkspaceEventCondition>, e: &WorkspaceEvent) -> bool {
    forall|i: int| 0 <= i < cs.len() ==> wscond_matches(&cs[i], e)
}

/// Does a window event meet every condition of the list?
pub fn check_window_conditions(condition_list: &Vec<WindowEventCondition>, event: &WindowEvent) -> (
    r: bool)
    ensures
        r == all_wconds(condition_list@, event),
{
    let mut i: usize = 0;
    let n = condition_list.len();
    while i < n
        invariant
            0 <= i <= n,
            n == condition_list@.len(),
            forall|k: int| 0 <= k < i ==> wcond_matches(&condition_list@[k], event),
        decreases n - i,
    {
        if !condition_list[i].matches(event) {
            return false;
        }
        i = i + 1;
    }
    true
}

/// Does a workspace event meet every condition of the list?
pub fn check_workspace_conditions(
    condition_list: &Vec<WorkspaceEventCondition>,
    event: &WorkspaceEvent,
) -> (r: bool)
    ensures
        r == all_wsconds(condition_list@, event),
{
    let mut i: usize = 0;
    let n = condition_list.len();
    while i < n
        invariant
            0 <= i <= n,
            n == condition_list@.len(),
            forall|k: int| 0 <= k < i ==> wscond_matches(&condition_list@[k], event),
        decreases n - i,
    {
        if !condition_list[i].matches(event) {
            return false;
        }
        i = i + 1;
    }
    true
}

/// Which window handlers fire on an event: the indices, in order, of
/// those whose conditions all hold.
pub open spec fn window_firing(hs: Seq<WindowEventHandler>, e: &WindowEvent) -> Seq<int>
    decreases hs.len(),
{
    if hs.len() == 0 {
        Seq::empty()
    } else {
        let rest = window_firing(hs.drop_last(), e);
        if all_wconds(hs.last().condition_list@, e) {
            rest.push(hs.len() - 1)
        } else {
            rest
        }
    }
}

/// Which workspace handlers fire on an event.
pub open spec fn workspace_firing(hs: Seq<WorkspaceEventHandler>, e: &WorkspaceEvent) -> Seq<int>
    decreases hs.len(),
{
    if hs.len() == 0 {
        Seq::empty()
    } else {
        let rest = workspace_firing(hs.drop_last(), e);
        if all_wsconds(hs.last().condition_list@, e) {
            rest.push(hs.len() - 1)
        } else {
            rest
        }
    }
}

/// The indices of the window handlers that fire on this event, in order.
/// The caller runs each one's action.
pub fn handle_window_event(handlers: &Vec<WindowEventHandler>, event: &WindowEvent) -> (r: Vec<
    usize,
>)
    ensures
        r@.map_values(|u: usize| u as int) == window_firing(handlers@, event),
{
    let mut out: Vec<usize> = Vec::new();
    let mut i: usize = 0;
    let n = handlers.len();
    proof {
        assert(handlers@.take(0) =~= Seq::<WindowEventHandler>::empty());
        assert(out@.map_values(|u: usize| u as int) =~= window_firing(handlers@.take(0), event));
    }
    while i < n
        invariant
            0 <= i <= n,
            n == handlers@.len(),
            out@.map_values(|u: usize| u as int) =~= window_firing(handlers@.take(i as int), event),
        decreases n - i,
    {
        proof {
            assert(handlers@.take(i + 1).drop_last() =~= handlers@.take(i as int));
            assert(handlers@.take(i + 1).last() == handlers@[i as int]);
        }
        if check_window_conditions(&handlers[i].condition_list, event) {
            out.push(i);
        }
        proof {
            assert(out@.map_values(|u: usize| u as int) =~= window_firing(
                handlers@.take(i + 1),
                event,
            ));
        }
        i = i + 1;
    }
    proof {
        assert(handlers@.take(n as int) =~= handlers@);
    }
    out
}

/// The indices of the workspace handlers that fire on this event.
pub fn handle_workspace_event(handlers: &Vec<WorkspaceEventHandler>, event: &WorkspaceEvent) -> (r:
    Vec<usize>)
    ensures
        r@.map_values(|u: usize| u as int) == workspace_firing(handlers@, event),
{
    let mut out: Vec<usize> = Vec::new();
    let mut i: usize = 0;
    let n = handlers.len();
    proof {
        assert(handlers@.take(0) =~= Seq::<WorkspaceEventHandler>::empty());
        assert(out@.map_values(|u: usize| u as int) =~= workspace_firing(handlers@.take(0), event));
    }
    while i < n
        invariant
            0 <= i <= n,
            n == handlers@.len(),
            out@.map_values(|u: usize| u as int) =~= workspace_firing(
                handlers@.take(i as int),
                event,
            ),
        decreases n - i,
    {
        proof {
            assert(handlers@.take(i + 1).drop_last() =~= handlers@.take(i as int));
            assert(handlers@.take(i + 1).last() == handlers@[i as int]);
        }
        if check_workspace_conditions(&handlers[i].condition_list, event) {
            out.push(i);
        }
        proof {
            assert(out@.map_values(|u: usize| u as int) =~= workspace_firing(
                handlers@.take(i + 1),
                event,
            ));
        }
        i = i + 1;
    }
    proof {
        assert(handlers@.take(n as int) =~= handlers@);
    }
    out
}

} // verus!
