//! Plans as XML documents: writing them out and reading them back.
use vstd::prelude::*;
use crate::budget::Tier;
use crate::planner::xml_tokens::{
    attr_views, is_final, next_token, open_reader, pending_events, stream_ends, xml_events,
    TokenView, XmlToken,
};
use crate::text::{chars_of, decimal, owned, parse_unsigned, parse_unsigned_chars, push_char, push_radix, push_str, str_eq};
use crate::utf8::{lenient_text, text_or_empty, utf8_lossy, utf8_or_empty};

verus! {

/// One step of a plan.
#[derive(Debug, Clone, PartialEq)]
pub struct Task {
    pub id: String,
    pub action: String,
    pub verify: String,
    pub done: String,
}

/// A plan: its place in the tree, what it needs, and its tasks.
#[derive(Debug, Clone)]
pub struct XmlPlan {
    pub id: String,
    pub title: String,
    pub wave: String,
    pub depends: Vec<String>,
    pub files: Vec<String>,
    pub skills_required: Vec<String>,
    pub tasks: Vec<Task>,
    pub budget_tier: Tier,
    pub budget_lines: u32,
    pub commit_message_hint: String,
}

/// A task as plain values.
pub struct TaskView {
    pub id: Seq<char>,
    pub action: Seq<char>,
    pub verify: Seq<char>,
    pub done: Seq<char>,
}

/// A plan as plain values.
pub struct PlanView {
    pub id: Seq<char>,
    pub title: Seq<char>,
    pub wave: Seq<char>,
    pub depends: Seq<Seq<char>>,
    pub files: Seq<Seq<char>>,
    pub skills_required: Seq<Seq<char>>,
    pub tasks: Seq<TaskView>,
    pub budget_tier: Tier,
    pub budget_lines: u32,
    pub commit_message_hint: Seq<char>,
}

impl View for Task {
    type V = TaskView;

    open spec fn view(&self) -> TaskView {
        TaskView {
            id: self.id@,
            action: self.action@,
            verify: self.verify@,
            done: self.done@,
        }
    }
}

/// The texts of a list of strings.
pub open spec fn string_seq(v: Seq<String>) -> Seq<Seq<char>> {
    v.map_values(|s: String| s@)
}

/// The views of a list of tasks.
pub open spec fn task_seq(v: Seq<Task>) -> Seq<TaskView> {
    v.map_values(|t: Task| t@)
}

impl View for XmlPlan {
    type V = PlanView;

    open spec fn view(&self) -> PlanView {
        PlanView {
            id: self.id@,
            title: self.title@,
            wave: self.wave@,
            depends: string_seq(self.depends@),
            files: string_seq(self.files@),
            skills_required: string_seq(self.skills_required@),
            tasks: task_seq(self.tasks@),
            budget_tier: self.budget_tier,
            budget_lines: self.budget_lines,
            commit_message_hint: self.commit_message_hint@,
        }
    }
}

// ------------------------------------------------------------------
// Writing
// ------------------------------------------------------------------

/// The XML escape of one character.
pub open spec fn escape_char(c: char) -> Seq<char> {
    if c == '&' {
        "&amp;"@
    } else if c == '<' {
        "&lt;"@
    } else if c == '>' {
        "&gt;"@
    } else if c == '"' {
        "&quot;"@
    } else if c == '\'' {
        "&apos;"@
    } else {
        seq![c]
    }
}

/// `s` with `&`, `<`, `>`, `"` and `'` replaced by their XML entities.
pub open spec fn escape_text(s: Seq<char>) -> Seq<char>
    decreases s.len(),
{
    if s.len() == 0 {
        seq![]
    } else {
        escape_text(s.drop_last()) + escape_char(s.last())
    }
}

/// An element on a line of its own: `indent<tag>text</tag>` and a newline, the text
/// escaped.
pub open spec fn element_line(indent: Seq<char>, tag: Seq<char>, text: Seq<char>) -> Seq<char> {
    indent + "<"@ + tag + ">"@ + escape_text(text) + "</"@ + tag + ">\n"@
}

/// One `<tag>` line, indented by four spaces, for each item.
pub open spec fn item_lines(tag: Seq<char>, items: Seq<Seq<char>>) -> Seq<char>
    decreases items.len(),
{
    if items.len() == 0 {
        seq![]
    } else {
        item_lines(tag, items.drop_last()) + element_line("    "@, tag, items.last())
    }
}

/// A list element holding one `<item>` line per item; nothing for an empty list.
pub open spec fn list_block(tag: Seq<char>, item: Seq<char>, items: Seq<Seq<char>>) -> Seq<char> {
    if items.len() == 0 {
        seq![]
    } else {
        "  <"@ + tag + ">\n"@ + item_lines(item, items) + "  </"@ + tag + ">\n"@
    }
}

/// The `<task>` element of a task.
pub open spec fn task_xml(t: TaskView) -> Seq<char> {
    "    <task id=\""@ + escape_text(t.id) + "\">\n"@
        + element_line("      "@, "action"@, t.action)
        + element_line("      "@, "verify"@, t.verify)
        + element_line("      "@, "done"@, t.done)
        + "    </task>\n"@
}

/// The `<task>` elements of a list of tasks, in order.
pub open spec fn tasks_xml(ts: Seq<TaskView>) -> Seq<char>
    decreases ts.len(),
{
    if ts.len() == 0 {
        seq![]
    } else {
        tasks_xml(ts.drop_last()) + task_xml(ts.last())
    }
}

/// The XML document of a plan.
pub open spec fn plan_xml(p: PlanView) -> Seq<char> {
    "<?xml version=\"1.0\" encoding=\"UTF-8\"?>\n"@
        + "<plan id=\""@ + escape_text(p.id) + "\">\n"@
        + element_line("  "@, "title"@, p.title)
        + element_line("  "@, "wave"@, p.wave)
        + "  <budget tier=\""@ + p.budget_tier.spec_name() + "\" lines=\""@
        + decimal(p.budget_lines as nat) + "\"/>\n"@
        + element_line("  "@, "commit_message_hint"@, p.commit_message_hint)
        + list_block("depends"@, "dep"@, p.depends)
        + list_block("files"@, "file"@, p.files)
        + list_block("skills_required"@, "skill"@, p.skills_required)
        + "  <tasks>\n"@ + tasks_xml(p.tasks) + "  </tasks>\n"@
        + "</plan>\n"@
}

/// Appends the escape of `t` to `s`.
fn push_escaped(s: &mut String, t: &str)
    ensures
        final(s)@ == old(s)@ + escape_text(t@),
{
    let v = chars_of(t);
    let ghost start = s@;
    let mut i: usize = 0;
    while i < v.len()
        invariant
            i <= v.len(),
            s@ == start + escape_text(v@.take(i as int)),
        decreases v.len() - i,
    {
        let c = v[i];
        assert(v@.take(i + 1).drop_last() == v@.take(i as int));
        if c == '&' {
            push_str(s, "&amp;");
        } else if c == '<' {
            push_str(s, "&lt;");
        } else if c == '>' {
            push_str(s, "&gt;");
        } else if c == '"' {
            push_str(s, "&quot;");
        } else if c == '\'' {
            push_str(s, "&apos;");
        } else {
            push_char(s, c);
        }
        assert(s@ =~= start + escape_text(v@.take(i + 1)));
        i = i + 1;
    }
    assert(v@.take(v@.len() as int) == v@);
}

/// The XML escape of `s` (see `escape_text`).
pub fn escape_xml(s: &str) -> (r: String)
    ensures
        r@ == escape_text(s@),
{
    let mut r = String::new();
    push_escaped(&mut r, s);
    r
}

/// Appends `element_line(indent, tag, text)` to `s`.
fn push_element(s: &mut String, indent: &str, tag: &str, text: &str)
    ensures
        final(s)@ == old(s)@ + element_line(indent@, tag@, text@),
{
    let ghost start = s@;
    push_str(s, indent);
    push_str(s, "<");
    push_str(s, tag);
    push_str(s, ">");
    push_escaped(s, text);
    push_str(s, "</");
    push_str(s, tag);
    push_str(s, ">\n");
    assert(s@ =~= start + element_line(indent@, tag@, text@));
}

/// Appends `list_block(tag, item, items)` to `s`.
fn push_list(s: &mut String, tag: &str, item: &str, items: &Vec<String>)
    ensures
        final(s)@ == old(s)@ + list_block(tag@, item@, string_seq(items@)),
{
    if items.len() == 0 {
        assert(s@ =~= s@ + list_block(tag@, item@, string_seq(items@)));
        return;
    }
    let ghost start = s@;
    push_str(s, "  <");
    push_str(s, tag);
    push_str(s, ">\n");
    let ghost head = s@;
    let mut i: usize = 0;
    while i < items.len()
        invariant
            i <= items.len(),
            s@ == head + item_lines(item@, string_seq(items@).take(i as int)),
        decreases items.len() - i,
    {
        push_element(s, "    ", item, items[i].as_str());
        assert(string_seq(items@).take(i + 1).drop_last() == string_seq(items@).take(i as int));
        assert(s@ =~= head + item_lines(item@, string_seq(items@).take(i + 1)));
        i = i + 1;
    }
    assert(string_seq(items@).take(items.len() as int) == string_seq(items@));
    push_str(s, "  </");
    push_str(s, tag);
    push_str(s, ">\n");
    assert(s@ =~= start + list_block(tag@, item@, string_seq(items@)));
}

/// Appends the `<task>` element of `t` to `s`.
fn push_task(s: &mut String, t: &Task)
    ensures
        final(s)@ == old(s)@ + task_xml(t@),
{
    let ghost start = s@;
    push_str(s, "    <task id=\"");
    push_escaped(s, t.id.as_str());
    push_str(s, "\">\n");
    push_element(s, "      ", "action", t.action.as_str());
    push_element(s, "      ", "verify", t.verify.as_str());
    push_element(s, "      ", "done", t.done.as_str());
    push_str(s, "    </task>\n");
    assert(s@ =~= start + task_xml(t@));
}

impl XmlPlan {
    /// The XML document of the plan (see `plan_xml`); it never fails.
    pub fn to_xml(&self) -> (r: Result<String, String>)
        ensures
            r matches Ok(x) && x@ == plan_xml(self@),
    {
        let mut xml = String::new();
        push_str(&mut xml, "<?xml version=\"1.0\" encoding=\"UTF-8\"?>\n");
        push_str(&mut xml, "<plan id=\"");
        push_escaped(&mut xml, self.id.as_str());
        push_str(&mut xml, "\">\n");
        push_element(&mut xml, "  ", "title", self.title.as_str());
        push_element(&mut xml, "  ", "wave", self.wave.as_str());
        push_str(&mut xml, "  <budget tier=\"");
        push_str(&mut xml, self.budget_tier.name());
        push_str(&mut xml, "\" lines=\"");
        push_radix(&mut xml, self.budget_lines as u64, 10);
        push_str(&mut xml, "\"/>\n");
        push_element(&mut xml, "  ", "commit_message_hint", self.commit_message_hint.as_str());
        push_list(&mut xml, "depends", "dep", &self.depends);
        push_list(&mut xml, "files", "file", &self.files);
        push_list(&mut xml, "skills_required", "skill", &self.skills_required);
        push_str(&mut xml, "  <tasks>\n");
        let ghost before_tasks = xml@;
        let mut i: usize = 0;
        while i < self.tasks.len()
            invariant
                i <= self.tasks.len(),
                xml@ == before_tasks + tasks_xml(task_seq(self.tasks@).take(i as int)),
            decreases self.tasks.len() - i,
        {
            push_task(&mut xml, &self.tasks[i]);
            assert(task_seq(self.tasks@).take(i + 1).drop_last() == task_seq(self.tasks@).take(i as int));
            assert(xml@ =~= before_tasks + tasks_xml(task_seq(self.tasks@).take(i + 1)));
            i = i + 1;
        }
        assert(task_seq(self.tasks@).take(self.tasks.len() as int) == task_seq(self.tasks@));
        push_str(&mut xml, "  </tasks>\n");
        push_str(&mut xml, "</plan>\n");
        assert(xml@ =~= plan_xml(self@));
        Ok(xml)
    }
}


// ------------------------------------------------------------------
// Reading
// ------------------------------------------------------------------

/// What the reader has gathered so far, as plain values: the fields of the plan, the
/// element whose text comes next, and the task being read.
pub struct ReadState {
    pub id: Seq<char>,
    pub title: Seq<char>,
    pub wave: Seq<char>,
    pub depends: Seq<Seq<char>>,
    pub files: Seq<Seq<char>>,
    pub skills_required: Seq<Seq<char>>,
    pub tasks: Seq<TaskView>,
    pub budget_tier: Tier,
    pub budget_lines: u32,
    pub commit_message_hint: Seq<char>,
    pub target: Seq<char>,
    pub task: Option<TaskView>,
}

/// The state before the first event: every field empty, the tier `Default`, no lines.
pub open spec fn initial_state() -> ReadState {
    ReadState {
        id: seq![],
        title: seq![],
        wave: seq![],
        depends: seq![],
        files: seq![],
        skills_required: seq![],
        tasks: seq![],
        budget_tier: Tier::Default,
        budget_lines: 0,
        commit_message_hint: seq![],
        target: seq![],
        task: None,
    }
}

/// The bytes of the attribute key `id`.
pub open spec fn id_key() -> Seq<u8> {
    seq![105u8, 100u8]
}

/// The value of the last `id` attribute among `attrs`, read leniently as UTF-8, or
/// `cur` when there is none.
pub open spec fn attr_id(attrs: Seq<(Seq<u8>, Seq<u8>)>, cur: Seq<char>) -> Seq<char>
    decreases attrs.len(),
{
    if attrs.len() == 0 {
        cur
    } else {
        let prev = attr_id(attrs.drop_last(), cur);
        let kv = attrs.last();
        if kv.0 == id_key() {
            lenient_text(kv.1)
        } else {
            prev
        }
    }
}

/// The tier and line budget after reading the attributes of a `<budget>` tag: `tier`
/// sets the tier (`Default` when it names none) and `lines` the budget (0 when it is
/// not a number that fits in a `u32`).
pub open spec fn budget_attrs(attrs: Seq<(Seq<u8>, Seq<u8>)>, tier: Tier, lines: u32) -> (Tier, u32)
    decreases attrs.len(),
{
    if attrs.len() == 0 {
        (tier, lines)
    } else {
        let prev = budget_attrs(attrs.drop_last(), tier, lines);
        let kv = attrs.last();
        let k = utf8_or_empty(kv.0);
        let v = lenient_text(kv.1);
        if k == "tier"@ {
            (
                match Tier::spec_parse(v) {
                    Some(t) => t,
                    None => Tier::Default,
                },
                prev.1,
            )
        } else if k == "lines"@ {
            (
                prev.0,
                match parse_unsigned(v, u32::MAX as nat) {
                    Some(n) => n as u32,
                    None => 0u32,
                },
            )
        } else {
            prev
        }
    }
}

/// The state after the text `text`: inside a task it fills the task's `action`,
/// `verify` or `done`; outside it sets the title, wave or commit hint, or adds a
/// dependency, file or skill, by the element it stands in.
pub open spec fn apply_text(st: ReadState, text: Seq<char>) -> ReadState {
    match st.task {
        Some(t) => if st.target == "action"@ {
            ReadState { task: Some(TaskView { action: text, ..t }), ..st }
        } else if st.target == "verify"@ {
            ReadState { task: Some(TaskView { verify: text, ..t }), ..st }
        } else if st.target == "done"@ {
            ReadState { task: Some(TaskView { done: text, ..t }), ..st }
        } else {
            st
        },
        None => if st.target == "title"@ {
            ReadState { title: text, ..st }
        } else if st.target == "wave"@ {
            ReadState { wave: text, ..st }
        } else if st.target == "dep"@ {
            ReadState { depends: st.depends.push(text), ..st }
        } else if st.target == "file"@ {
            ReadState { files: st.files.push(text), ..st }
        } else if st.target == "skill"@ {
            ReadState { skills_required: st.skills_required.push(text), ..st }
        } else if st.target == "commit_message_hint"@ {
            ReadState { commit_message_hint: text, ..st }
        } else {
            st
        },
    }
}

/// The state after one event that does not end the reading.
pub open spec fn apply_token(st: ReadState, tok: TokenView) -> ReadState {
    match tok {
        TokenView::Start(n, attrs) => {
            let name = utf8_or_empty(n);
            let st1 = if name == "plan"@ {
                ReadState { id: attr_id(attrs, st.id), ..st }
            } else if name == "task"@ {
                ReadState {
                    task: Some(
                        TaskView { id: attr_id(attrs, seq![]), action: seq![], verify: seq![], done: seq![] },
                    ),
                    ..st
                }
            } else {
                st
            };
            ReadState { target: name, ..st1 }
        },
        TokenView::Empty(n, attrs) => if utf8_or_empty(n) == "budget"@ {
            let b = budget_attrs(attrs, st.budget_tier, st.budget_lines);
            ReadState { budget_tier: b.0, budget_lines: b.1, ..st }
        } else {
            st
        },
        TokenView::Text(t) => apply_text(
            st,
            match t {
                Some(x) => x,
                None => seq![],
            },
        ),
        TokenView::End(n) => if utf8_or_empty(n) == "task"@ {
            match st.task {
                Some(t) => ReadState { tasks: st.tasks.push(t), task: None, ..st },
                None => st,
            }
        } else {
            st
        },
        _ => st,
    }
}

/// The outcome of reading the events `evs` from the state `st`: the state at the end
/// of the document, or the message of the first error.
pub open spec fn read_events(st: ReadState, evs: Seq<TokenView>) -> Result<ReadState, Seq<char>>
    decreases evs.len(),
{
    if evs.len() == 0 {
        Ok(st)
    } else {
        match evs[0] {
            TokenView::Eof => Ok(st),
            TokenView::Error(m) => Err(m),
            _ => read_events(apply_token(st, evs[0]), evs.drop_first()),
        }
    }
}

/// The plan that a final reading state holds.
pub open spec fn plan_of(st: ReadState) -> PlanView {
    PlanView {
        id: st.id,
        title: st.title,
        wave: st.wave,
        depends: st.depends,
        files: st.files,
        skills_required: st.skills_required,
        tasks: st.tasks,
        budget_tier: st.budget_tier,
        budget_lines: st.budget_lines,
        commit_message_hint: st.commit_message_hint,
    }
}

/// What reading the XML document `xml` gives: the plan, or the reader's error message.
pub open spec fn spec_from_xml(xml: Seq<char>) -> Result<PlanView, Seq<char>> {
    match read_events(initial_state(), xml_events(xml)) {
        Ok(st) => Ok(plan_of(st)),
        Err(m) => Err(m),
    }
}

/// A plan being read, event by event.
pub struct PlanReader {
    plan: XmlPlan,
    target: String,
    task: Option<Task>,
}

impl View for PlanReader {
    type V = ReadState;

    closed spec fn view(&self) -> ReadState {
        ReadState {
            id: self.plan.id@,
            title: self.plan.title@,
            wave: self.plan.wave@,
            depends: string_seq(self.plan.depends@),
            files: string_seq(self.plan.files@),
            skills_required: string_seq(self.plan.skills_required@),
            tasks: task_seq(self.plan.tasks@),
            budget_tier: self.plan.budget_tier,
            budget_lines: self.plan.budget_lines,
            commit_message_hint: self.plan.commit_message_hint@,
            target: self.target@,
            task: match self.task {
                Some(t) => Some(t@),
                None => None,
            },
        }
    }
}

/// Whether `k` is the key `id`.
fn is_id_key(k: &Vec<u8>) -> (r: bool)
    ensures
        r == (k@ == id_key()),
{
    let r = k.len() == 2 && k[0] == 105u8 && k[1] == 100u8;
    if r {
        assert(k@ =~= id_key());
    }
    r
}

/// The value of the last `id` attribute, or `cur` (see `attr_id`).
fn find_attr_id(attrs: &Vec<(Vec<u8>, Vec<u8>)>, cur: String) -> (r: String)
    ensures
        r@ == attr_id(attr_views(attrs@), cur@),
{
    let mut id = cur;
    let mut i: usize = 0;
    while i < attrs.len()
        invariant
            i <= attrs.len(),
            id@ == attr_id(attr_views(attrs@).take(i as int), cur@),
        decreases attrs.len() - i,
    {
        assert(attr_views(attrs@).take(i + 1).drop_last() == attr_views(attrs@).take(i as int));
        let kv = &attrs[i];
        if is_id_key(&kv.0) {
            id = utf8_lossy(kv.1.as_slice());
        }
        i = i + 1;
    }
    assert(attr_views(attrs@).take(attrs.len() as int) == attr_views(attrs@));
    id
}

/// The tier and line budget after the attributes of a `<budget>` tag (see
/// `budget_attrs`).
fn read_budget(attrs: &Vec<(Vec<u8>, Vec<u8>)>, tier: Tier, lines: u32) -> (r: (Tier, u32))
    ensures
        r == budget_attrs(attr_views(attrs@), tier, lines),
{
    let mut t = tier;
    let mut l = lines;
    let mut i: usize = 0;
    while i < attrs.len()
        invariant
            i <= attrs.len(),
            (t, l) == budget_attrs(attr_views(attrs@).take(i as int), tier, lines),
        decreases attrs.len() - i,
    {
        assert(attr_views(attrs@).take(i + 1).drop_last() == attr_views(attrs@).take(i as int));
        let kv = &attrs[i];
        let k = text_or_empty(kv.0.as_slice());
        let v = utf8_lossy(kv.1.as_slice());
        if str_eq(k, "tier") {
            t = match Tier::parse(v.as_str()) {
                Some(x) => x,
                None => Tier::Default,
            };
        } else if str_eq(k, "lines") {
            let vc = chars_of(v.as_str());
            l = match parse_unsigned_chars(&vc, 4294967295) {
                Some(n) => n as u32,
                None => 0,
            };
        }
        i = i + 1;
    }
    assert(attr_views(attrs@).take(attrs.len() as int) == attr_views(attrs@));
    (t, l)
}

impl PlanReader {
    /// A reader that has seen no event yet.
    pub fn new() -> (r: Self)
        ensures
            r@ == initial_state(),
    {
        let r = PlanReader {
            plan: XmlPlan {
                id: String::new(),
                title: String::new(),
                wave: String::new(),
                depends: Vec::new(),
                files: Vec::new(),
                skills_required: Vec::new(),
                tasks: Vec::new(),
                budget_tier: Tier::Default,
                budget_lines: 0,
                commit_message_hint: String::new(),
            },
            target: String::new(),
            task: None,
        };
        assert(string_seq(r.plan.depends@) =~= seq![]);
        assert(string_seq(r.plan.files@) =~= seq![]);
        assert(string_seq(r.plan.skills_required@) =~= seq![]);
        assert(task_seq(r.plan.tasks@) =~= seq![]);
        r
    }

    /// Takes in the text `text` (see `apply_text`).
    fn take_text(&mut self, text: String)
        ensures
            final(self)@ == apply_text(old(self)@, text@),
    {
        let in_task = self.task.is_some();
        if in_task {
            let mut t = self.task.take().unwrap();
            if str_eq(self.target.as_str(), "action") {
                t.action = text;
            } else if str_eq(self.target.as_str(), "verify") {
                t.verify = text;
            } else if str_eq(self.target.as_str(), "done") {
                t.done = text;
            }
            self.task = Some(t);
        } else if str_eq(self.target.as_str(), "title") {
            self.plan.title = text;
        } else if str_eq(self.target.as_str(), "wave") {
            self.plan.wave = text;
        } else if str_eq(self.target.as_str(), "dep") {
            self.plan.depends.push(text);
            assert(string_seq(self.plan.depends@) =~= old(self)@.depends.push(text@));
        } else if str_eq(self.target.as_str(), "file") {
            self.plan.files.push(text);
            assert(string_seq(self.plan.files@) =~= old(self)@.files.push(text@));
        } else if str_eq(self.target.as_str(), "skill") {
            self.plan.skills_required.push(text);
            assert(string_seq(self.plan.skills_required@) =~= old(self)@.skills_required.push(text@));
        } else if str_eq(self.target.as_str(), "commit_message_hint") {
            self.plan.commit_message_hint = text;
        }
    }

    /// Takes in one event that does not end the reading (see `apply_token`).
    pub fn apply(&mut self, tok: XmlToken)
        ensures
            final(self)@ == apply_token(old(self)@, tok@),
    {
        match tok {
            XmlToken::Tag(false, n, attrs) => {
                let name = text_or_empty(n.as_slice());
                if str_eq(name, "plan") {
                    let cur = self.plan.id.clone();
                    self.plan.id = find_attr_id(&attrs, cur);
                } else if str_eq(name, "task") {
                    let tid = find_attr_id(&attrs, String::new());
                    self.task = Some(Task { id: tid, action: String::new(), verify: String::new(), done: String::new() });
                }
                self.target = owned(name);
            },
            XmlToken::Tag(true, n, attrs) => {
                let name = text_or_empty(n.as_slice());
                if str_eq(name, "budget") {
                    let b = read_budget(&attrs, self.plan.budget_tier, self.plan.budget_lines);
                    self.plan.budget_tier = b.0;
                    self.plan.budget_lines = b.1;
                }
            },
            XmlToken::Text(t) => {
                let text = match t {
                    Some(x) => x,
                    None => String::new(),
                };
                self.take_text(text);
            },
            XmlToken::End(n) => {
                let name = text_or_empty(n.as_slice());
                if str_eq(name, "task") {
                    match self.task.take() {
                        Some(t) => {
                            self.plan.tasks.push(t);
                            assert(task_seq(self.plan.tasks@) =~= old(self)@.tasks.push(old(self)@.task.unwrap()));
                        },
                        None => {},
                    }
                }
            },
            _ => {},
        }
    }

    /// The plan read so far.
    pub fn finish(self) -> (r: XmlPlan)
        ensures
            r@ == plan_of(self@),
    {
        self.plan
    }
}

/// Reading what is left of a run of events after a step that does not end it.
proof fn lemma_read_step(st: ReadState, evs: Seq<TokenView>)
    requires
        stream_ends(evs),
        !is_final(evs[0]),
    ensures
        stream_ends(evs.drop_first()),
        read_events(st, evs) == read_events(apply_token(st, evs[0]), evs.drop_first()),
{
    assert(evs.len() > 1);
    let t = evs.drop_first();
    assert(t.last() == evs.last());
    assert forall|i: int| 0 <= i < t.len() - 1 implies !is_final(#[trigger] t[i]) by {
        assert(t[i] == evs[i + 1]);
    }
}

impl XmlPlan {
    /// Reads a plan from its XML document (see `spec_from_xml`): the events of the
    /// document are taken in one by one until its end, and the first error the reader
    /// meets is returned as a message.
    pub fn from_xml(xml: &str) -> (r: Result<XmlPlan, String>)
        ensures
            match spec_from_xml(xml@) {
                Ok(p) => r matches Ok(q) && q@ == p,
                Err(m) => r matches Err(e) && e@ == m,
            },
    {
        let mut reader = open_reader(xml);
        let mut rd = PlanReader::new();
        loop
            invariant
                stream_ends(pending_events(reader)),
                read_events(rd@, pending_events(reader)) == read_events(initial_state(), xml_events(xml@)),
            decreases pending_events(reader).len(),
        {
            let ghost before = pending_events(reader);
            let tok = next_token(&mut reader);
            match tok {
                XmlToken::Eof => {
                    return Ok(rd.finish());
                },
                XmlToken::Error(m) => {
                    return Err(m);
                },
                other => {
                    proof {
                        lemma_read_step(rd@, before);
                    }
                    rd.apply(other);
                },
            }
        }
    }
}

} // verus!
