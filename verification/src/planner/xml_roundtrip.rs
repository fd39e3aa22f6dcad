//! Reading back what the writer wrote: the events of a plan's XML document, as the
//! document is laid out, read to the plan itself.
use vstd::prelude::*;
use vstd::utf8::{encode_utf8, encode_utf8_decode_utf8, encode_utf8_valid_utf8};
use crate::budget::Tier;
use crate::planner::xml_plan::{
    apply_text, apply_token, attr_id, budget_attrs, escape_text, id_key, initial_state, plan_of,
    read_events, PlanView, ReadState, TaskView,
};
use crate::planner::xml_tokens::{is_final, TokenView};
use crate::text::{decimal, lemma_decimal_parses};
use crate::utf8::{lenient_text, utf8_or_empty};

verus! {

/// The events of an element holding `text`: its opening tag, its text unless the text
/// is empty, and its closing tag.
pub open spec fn element_tokens(tag: Seq<char>, text: Seq<char>) -> Seq<TokenView> {
    seq![TokenView::Start(encode_utf8(tag), seq![])] + (if text.len() > 0 {
        seq![TokenView::Text(Some(text))]
    } else {
        seq![]
    }) + seq![TokenView::End(encode_utf8(tag))]
}

/// The events of one `item` element per item.
pub open spec fn items_tokens(item: Seq<char>, items: Seq<Seq<char>>) -> Seq<TokenView>
    decreases items.len(),
{
    if items.len() == 0 {
        seq![]
    } else {
        items_tokens(item, items.drop_last()) + element_tokens(item, items.last())
    }
}

/// The events of a list element; none for an empty list.
pub open spec fn list_tokens(tag: Seq<char>, item: Seq<char>, items: Seq<Seq<char>>) -> Seq<TokenView> {
    if items.len() == 0 {
        seq![]
    } else {
        seq![TokenView::Start(encode_utf8(tag), seq![])] + items_tokens(item, items) + seq![
            TokenView::End(encode_utf8(tag)),
        ]
    }
}

/// The attributes of a tag that carries the id `id`, written escaped.
pub open spec fn id_attr(id: Seq<char>) -> Seq<(Seq<u8>, Seq<u8>)> {
    seq![(id_key(), encode_utf8(escape_text(id)))]
}

/// The events of a `<task>` element.
pub open spec fn task_tokens(t: TaskView) -> Seq<TokenView> {
    seq![TokenView::Start(encode_utf8("task"@), id_attr(t.id))] + element_tokens("action"@, t.action)
        + element_tokens("verify"@, t.verify) + element_tokens("done"@, t.done) + seq![
        TokenView::End(encode_utf8("task"@)),
    ]
}

/// The events of the `<task>` elements of `ts`, in order.
pub open spec fn tasks_tokens(ts: Seq<TaskView>) -> Seq<TokenView>
    decreases ts.len(),
{
    if ts.len() == 0 {
        seq![]
    } else {
        tasks_tokens(ts.drop_last()) + task_tokens(ts.last())
    }
}

/// The attributes of the `<budget>` tag of `p`.
pub open spec fn budget_tokens_attrs(p: PlanView) -> Seq<(Seq<u8>, Seq<u8>)> {
    seq![
        (encode_utf8("tier"@), encode_utf8(p.budget_tier.spec_name())),
        (encode_utf8("lines"@), encode_utf8(decimal(p.budget_lines as nat))),
    ]
}

/// The events of the document `plan_xml(p)`, laid out as it is written: the
/// declaration, the `<plan>` element with its fields, lists and tasks, and the end of
/// the document. Texts appear as they were before escaping, and an empty text gives
/// no event.
pub open spec fn plan_tokens(p: PlanView) -> Seq<TokenView> {
    seq![TokenView::Other, TokenView::Start(encode_utf8("plan"@), id_attr(p.id))]
        + element_tokens("title"@, p.title) + element_tokens("wave"@, p.wave)
        + seq![TokenView::Empty(encode_utf8("budget"@), budget_tokens_attrs(p))]
        + element_tokens("commit_message_hint"@, p.commit_message_hint)
        + list_tokens("depends"@, "dep"@, p.depends)
        + list_tokens("files"@, "file"@, p.files)
        + list_tokens("skills_required"@, "skill"@, p.skills_required)
        + seq![TokenView::Start(encode_utf8("tasks"@), seq![])]
        + tasks_tokens(p.tasks)
        + seq![TokenView::End(encode_utf8("tasks"@)), TokenView::End(encode_utf8("plan"@)), TokenView::Eof]
}

/// The plan reads back whole from its events: its ids need no escaping, and every
/// dependency, file and skill is a non-empty text.
pub open spec fn reads_back(p: PlanView) -> bool {
    &&& escape_text(p.id) == p.id
    &&& forall|i: int| 0 <= i < p.tasks.len() ==> escape_text(#[trigger] p.tasks[i].id) == p.tasks[i].id
    &&& forall|i: int| 0 <= i < p.depends.len() ==> (#[trigger] p.depends[i]).len() > 0
    &&& forall|i: int| 0 <= i < p.files.len() ==> (#[trigger] p.files[i]).len() > 0
    &&& forall|i: int| 0 <= i < p.skills_required.len() ==> (#[trigger] p.skills_required[i]).len() > 0
}

/// The state after events none of which ends the reading.
pub open spec fn apply_all(st: ReadState, evs: Seq<TokenView>) -> ReadState
    decreases evs.len(),
{
    if evs.len() == 0 {
        st
    } else {
        apply_all(apply_token(st, evs[0]), evs.drop_first())
    }
}

/// No event of `evs` ends the reading.
pub open spec fn no_final(evs: Seq<TokenView>) -> bool {
    forall|i: int| 0 <= i < evs.len() ==> !is_final(#[trigger] evs[i])
}

proof fn lemma_apply_all_concat(st: ReadState, a: Seq<TokenView>, b: Seq<TokenView>)
    ensures
        apply_all(st, a + b) == apply_all(apply_all(st, a), b),
    decreases a.len(),
{
    if a.len() > 0 {
        assert((a + b).drop_first() =~= a.drop_first() + b);
        assert((a + b)[0] == a[0]);
        lemma_apply_all_concat(apply_token(st, a[0]), a.drop_first(), b);
    } else {
        assert(a + b =~= b);
    }
}

proof fn lemma_read_concat(st: ReadState, a: Seq<TokenView>, b: Seq<TokenView>)
    requires
        no_final(a),
    ensures
        read_events(st, a + b) == read_events(apply_all(st, a), b),
    decreases a.len(),
{
    if a.len() > 0 {
        assert((a + b).drop_first() =~= a.drop_first() + b);
        assert((a + b)[0] == a[0]);
        assert(!is_final(a[0]));
        assert(no_final(a.drop_first())) by {
            assert forall|i: int| 0 <= i < a.drop_first().len() implies !is_final(#[trigger] a.drop_first()[i]) by {
                assert(a.drop_first()[i] == a[i + 1]);
            }
        }
        lemma_read_concat(apply_token(st, a[0]), a.drop_first(), b);
    } else {
        assert(a + b =~= b);
    }
}

/// A tag name written as bytes reads back as itself.
proof fn lemma_name(s: Seq<char>)
    ensures
        utf8_or_empty(encode_utf8(s)) == s,
        lenient_text(encode_utf8(s)) == s,
{
    encode_utf8_valid_utf8(s);
    encode_utf8_decode_utf8(s);
}

proof fn lemma_literals()
    ensures
        "plan"@ != "task"@,
        "title"@ != "plan"@,
        "title"@ != "task"@,
        "wave"@ != "plan"@,
        "wave"@ != "task"@,
        "wave"@ != "title"@,
        "commit_message_hint"@ != "plan"@,
        "commit_message_hint"@ != "task"@,
        "commit_message_hint"@ != "title"@,
        "commit_message_hint"@ != "wave"@,
        "commit_message_hint"@ != "dep"@,
        "commit_message_hint"@ != "file"@,
        "commit_message_hint"@ != "skill"@,
        "depends"@ != "plan"@,
        "depends"@ != "task"@,
        "files"@ != "plan"@,
        "files"@ != "task"@,
        "skills_required"@ != "plan"@,
        "skills_required"@ != "task"@,
        "tasks"@ != "plan"@,
        "tasks"@ != "task"@,
        "dep"@ != "plan"@,
        "dep"@ != "task"@,
        "dep"@ != "title"@,
        "dep"@ != "wave"@,
        "file"@ != "plan"@,
        "file"@ != "task"@,
        "file"@ != "title"@,
        "file"@ != "wave"@,
        "file"@ != "dep"@,
        "skill"@ != "plan"@,
        "skill"@ != "task"@,
        "skill"@ != "title"@,
        "skill"@ != "wave"@,
        "skill"@ != "dep"@,
        "skill"@ != "file"@,
        "action"@ != "plan"@,
        "action"@ != "task"@,
        "verify"@ != "plan"@,
        "verify"@ != "task"@,
        "verify"@ != "action"@,
        "done"@ != "plan"@,
        "done"@ != "task"@,
        "done"@ != "action"@,
        "done"@ != "verify"@,
        "budget"@ != "plan"@,
        "tier"@ != "lines"@,
{
    reveal_strlit("plan");
    reveal_strlit("task");
    reveal_strlit("title");
    reveal_strlit("wave");
    reveal_strlit("commit_message_hint");
    reveal_strlit("dep");
    reveal_strlit("file");
    reveal_strlit("skill");
    reveal_strlit("depends");
    reveal_strlit("files");
    reveal_strlit("skills_required");
    reveal_strlit("tasks");
    reveal_strlit("action");
    reveal_strlit("verify");
    reveal_strlit("done");
    reveal_strlit("budget");
    reveal_strlit("tier");
    reveal_strlit("lines");
    assert("plan"@[0] != "task"@[0]);
    assert("title"@.len() != "plan"@.len());
    assert("title"@[0] != "task"@[0] || "title"@.len() != "task"@.len());
    assert("wave"@[0] != "plan"@[0]);
    assert("wave"@[0] != "task"@[0]);
    assert("wave"@.len() != "title"@.len());
    assert("commit_message_hint"@.len() != "plan"@.len());
    assert("depends"@.len() != "plan"@.len());
    assert("files"@.len() != "plan"@.len());
    assert("skills_required"@.len() != "plan"@.len());
    assert("tasks"@.len() != "plan"@.len());
    assert("dep"@.len() != "plan"@.len());
    assert("dep"@.len() != "title"@.len());
    assert("file"@[0] != "plan"@[0]);
    assert("file"@[0] != "task"@[0]);
    assert("file"@[0] != "wave"@[0]);
    assert("file"@.len() != "title"@.len());
    assert("file"@.len() != "dep"@.len());
    assert("skill"@.len() != "plan"@.len());
    assert("skill"@[0] != "title"@[0]);
    assert("skill"@.len() != "wave"@.len());
    assert("skill"@.len() != "dep"@.len());
    assert("skill"@.len() != "file"@.len());
    assert("action"@.len() != "plan"@.len());
    assert("verify"@.len() != "plan"@.len());
    assert("verify"@[0] != "action"@[0]);
    assert("done"@[0] != "plan"@[0]);
    assert("done"@[0] != "task"@[0]);
    assert("done"@.len() != "action"@.len());
    assert("done"@.len() != "verify"@.len());
    assert("budget"@.len() != "plan"@.len());
    assert("tier"@.len() != "lines"@.len());
}


proof fn lemma_no_final_concat(a: Seq<TokenView>, b: Seq<TokenView>)
    requires
        no_final(a),
        no_final(b),
    ensures
        no_final(a + b),
{
    assert forall|i: int| 0 <= i < (a + b).len() implies !is_final(#[trigger] (a + b)[i]) by {
        if i < a.len() {
            assert((a + b)[i] == a[i]);
        } else {
            assert((a + b)[i] == b[i - a.len()]);
        }
    }
}

proof fn lemma_no_final_element(tag: Seq<char>, text: Seq<char>)
    ensures
        no_final(element_tokens(tag, text)),
{
    let e = element_tokens(tag, text);
    assert forall|i: int| 0 <= i < e.len() implies !is_final(#[trigger] e[i]) by {
        if text.len() > 0 {
            assert(e =~= seq![
                TokenView::Start(encode_utf8(tag), seq![]),
                TokenView::Text(Some(text)),
                TokenView::End(encode_utf8(tag)),
            ]);
        } else {
            assert(e =~= seq![TokenView::Start(encode_utf8(tag), seq![]), TokenView::End(encode_utf8(tag))]);
        }
    }
}

proof fn lemma_no_final_items(item: Seq<char>, items: Seq<Seq<char>>)
    ensures
        no_final(items_tokens(item, items)),
    decreases items.len(),
{
    if items.len() > 0 {
        lemma_no_final_items(item, items.drop_last());
        lemma_no_final_element(item, items.last());
        lemma_no_final_concat(items_tokens(item, items.drop_last()), element_tokens(item, items.last()));
    }
}

proof fn lemma_no_final_list(tag: Seq<char>, item: Seq<char>, items: Seq<Seq<char>>)
    ensures
        no_final(list_tokens(tag, item, items)),
{
    if items.len() > 0 {
        lemma_no_final_items(item, items);
        let a = seq![TokenView::Start(encode_utf8(tag), seq![])];
        let c = seq![TokenView::End(encode_utf8(tag))];
        assert(no_final(a));
        assert(no_final(c));
        lemma_no_final_concat(a, items_tokens(item, items));
        lemma_no_final_concat(a + items_tokens(item, items), c);
    }
}

proof fn lemma_no_final_task(t: TaskView)
    ensures
        no_final(task_tokens(t)),
{
    let a = seq![TokenView::Start(encode_utf8("task"@), id_attr(t.id))];
    let c = seq![TokenView::End(encode_utf8("task"@))];
    assert(no_final(a));
    assert(no_final(c));
    lemma_no_final_element("action"@, t.action);
    lemma_no_final_element("verify"@, t.verify);
    lemma_no_final_element("done"@, t.done);
    lemma_no_final_concat(a, element_tokens("action"@, t.action));
    lemma_no_final_concat(a + element_tokens("action"@, t.action), element_tokens("verify"@, t.verify));
    lemma_no_final_concat(
        a + element_tokens("action"@, t.action) + element_tokens("verify"@, t.verify),
        element_tokens("done"@, t.done),
    );
    lemma_no_final_concat(
        a + element_tokens("action"@, t.action) + element_tokens("verify"@, t.verify) + element_tokens(
            "done"@,
            t.done,
        ),
        c,
    );
}

proof fn lemma_no_final_tasks(ts: Seq<TaskView>)
    ensures
        no_final(tasks_tokens(ts)),
    decreases ts.len(),
{
    if ts.len() > 0 {
        lemma_no_final_tasks(ts.drop_last());
        lemma_no_final_task(ts.last());
        lemma_no_final_concat(tasks_tokens(ts.drop_last()), task_tokens(ts.last()));
    }
}

proof fn lemma_apply_one(st: ReadState, t: TokenView)
    ensures
        apply_all(st, seq![t]) == apply_token(st, t),
{
    assert(seq![t].drop_first() =~= Seq::<TokenView>::empty());
    assert(seq![t][0] == t);
    assert(apply_all(apply_token(st, t), Seq::<TokenView>::empty()) == apply_token(st, t));
}

/// The state after an element: its tag becomes the target, and its text, if any, is
/// taken in.
proof fn lemma_element(st: ReadState, tag: Seq<char>, text: Seq<char>)
    requires
        tag != "plan"@,
        tag != "task"@,
    ensures
        apply_all(st, element_tokens(tag, text)) == if text.len() > 0 {
            apply_text(ReadState { target: tag, ..st }, text)
        } else {
            ReadState { target: tag, ..st }
        },
{
    lemma_name(tag);
    let a = seq![TokenView::Start(encode_utf8(tag), seq![])];
    let m: Seq<TokenView> = if text.len() > 0 {
        seq![TokenView::Text(Some(text))]
    } else {
        seq![]
    };
    let c = seq![TokenView::End(encode_utf8(tag))];
    lemma_apply_all_concat(st, a + m, c);
    lemma_apply_all_concat(st, a, m);
    lemma_apply_one(st, a[0]);
    let s1 = ReadState { target: tag, ..st };
    assert(apply_all(st, a) == s1);
    let s2 = apply_all(s1, m);
    if text.len() > 0 {
        lemma_apply_one(s1, m[0]);
    }
    lemma_apply_one(s2, c[0]);
}

/// The list of the state that the item element `item` adds to.
pub open spec fn list_of(st: ReadState, item: Seq<char>) -> Seq<Seq<char>> {
    if item == "dep"@ {
        st.depends
    } else if item == "file"@ {
        st.files
    } else {
        st.skills_required
    }
}

/// The state with the list of `item` set to `v`.
pub open spec fn with_list(st: ReadState, item: Seq<char>, v: Seq<Seq<char>>) -> ReadState {
    if item == "dep"@ {
        ReadState { depends: v, ..st }
    } else if item == "file"@ {
        ReadState { files: v, ..st }
    } else {
        ReadState { skills_required: v, ..st }
    }
}

/// Item elements outside a task add their texts to their list, in order.
proof fn lemma_items(st: ReadState, item: Seq<char>, items: Seq<Seq<char>>)
    requires
        st.task is None,
        item == "dep"@ || item == "file"@ || item == "skill"@,
        forall|i: int| 0 <= i < items.len() ==> (#[trigger] items[i]).len() > 0,
    ensures
        apply_all(st, items_tokens(item, items)) == with_list(
            ReadState { target: apply_all(st, items_tokens(item, items)).target, ..st },
            item,
            list_of(st, item) + items,
        ),
    decreases items.len(),
{
    lemma_literals();
    if items.len() == 0 {
        assert(list_of(st, item) + items =~= list_of(st, item));
    } else {
        let init = items.drop_last();
        assert forall|i: int| 0 <= i < init.len() implies (#[trigger] init[i]).len() > 0 by {
            assert(init[i] == items[i]);
        }
        lemma_items(st, item, init);
        let mid = apply_all(st, items_tokens(item, init));
        lemma_apply_all_concat(st, items_tokens(item, init), element_tokens(item, items.last()));
        assert(items.last() == items[items.len() - 1]);
        lemma_element(mid, item, items.last());
        assert(list_of(st, item) + init.push(items.last()) =~= list_of(st, item) + items);
        assert(init.push(items.last()) =~= items);
        assert((list_of(st, item) + init).push(items.last()) =~= list_of(st, item) + items);
    }
}

/// A list element outside a task adds its items to the list.
proof fn lemma_list(st: ReadState, tag: Seq<char>, item: Seq<char>, items: Seq<Seq<char>>)
    requires
        st.task is None,
        tag != "plan"@,
        tag != "task"@,
        item == "dep"@ || item == "file"@ || item == "skill"@,
        forall|i: int| 0 <= i < items.len() ==> (#[trigger] items[i]).len() > 0,
    ensures
        apply_all(st, list_tokens(tag, item, items)) == with_list(
            ReadState { target: apply_all(st, list_tokens(tag, item, items)).target, ..st },
            item,
            list_of(st, item) + items,
        ),
{
    lemma_literals();
    if items.len() == 0 {
        assert(list_of(st, item) + items =~= list_of(st, item));
        assert(list_tokens(tag, item, items) =~= Seq::<TokenView>::empty());
    } else {
        lemma_name(tag);
        let a = seq![TokenView::Start(encode_utf8(tag), seq![])];
        let c = seq![TokenView::End(encode_utf8(tag))];
        lemma_apply_all_concat(st, a + items_tokens(item, items), c);
        lemma_apply_all_concat(st, a, items_tokens(item, items));
        lemma_apply_one(st, a[0]);
        let s1 = ReadState { target: tag, ..st };
        lemma_items(s1, item, items);
        let s2 = apply_all(s1, items_tokens(item, items));
        lemma_apply_one(s2, c[0]);
    }
}

/// A task element outside a task adds the task, its id read back unescaped.
proof fn lemma_task(st: ReadState, t: TaskView)
    requires
        st.task is None,
        escape_text(t.id) == t.id,
    ensures
        apply_all(st, task_tokens(t)) == (ReadState {
            tasks: st.tasks.push(t),
            task: None,
            target: apply_all(st, task_tokens(t)).target,
            ..st
        }),
{
    lemma_literals();
    lemma_name("task"@);
    lemma_name(escape_text(t.id));
    let a = seq![TokenView::Start(encode_utf8("task"@), id_attr(t.id))];
    let ea = element_tokens("action"@, t.action);
    let ev = element_tokens("verify"@, t.verify);
    let ed = element_tokens("done"@, t.done);
    let c = seq![TokenView::End(encode_utf8("task"@))];
    lemma_apply_all_concat(st, a + ea + ev + ed, c);
    lemma_apply_all_concat(st, a + ea + ev, ed);
    lemma_apply_all_concat(st, a + ea, ev);
    lemma_apply_all_concat(st, a, ea);
    lemma_apply_one(st, a[0]);
    assert(id_attr(t.id).drop_last() =~= Seq::<(Seq<u8>, Seq<u8>)>::empty());
    assert(attr_id(id_attr(t.id), seq![]) == t.id);
    let s1 = apply_all(st, a);
    assert(s1.task == Some(TaskView { id: t.id, action: seq![], verify: seq![], done: seq![] }));
    if t.action.len() == 0 {
        assert(t.action =~= seq![]);
    }
    if t.verify.len() == 0 {
        assert(t.verify =~= seq![]);
    }
    if t.done.len() == 0 {
        assert(t.done =~= seq![]);
    }
    lemma_element(s1, "action"@, t.action);
    let s2 = apply_all(s1, ea);
    assert(s2.task == Some(TaskView { id: t.id, action: t.action, verify: seq![], done: seq![] }));
    lemma_element(s2, "verify"@, t.verify);
    let s3 = apply_all(s2, ev);
    assert(s3.task == Some(TaskView { id: t.id, action: t.action, verify: t.verify, done: seq![] }));
    lemma_element(s3, "done"@, t.done);
    let s4 = apply_all(s3, ed);
    assert(s4.task == Some(t));
    lemma_apply_one(s4, c[0]);
}

/// Task elements outside a task add their tasks, in order.
proof fn lemma_tasks(st: ReadState, ts: Seq<TaskView>)
    requires
        st.task is None,
        forall|i: int| 0 <= i < ts.len() ==> escape_text(#[trigger] ts[i].id) == ts[i].id,
    ensures
        apply_all(st, tasks_tokens(ts)) == (ReadState {
            tasks: st.tasks + ts,
            target: apply_all(st, tasks_tokens(ts)).target,
            ..st
        }),
    decreases ts.len(),
{
    if ts.len() == 0 {
        assert(st.tasks + ts =~= st.tasks);
    } else {
        let init = ts.drop_last();
        assert forall|i: int| 0 <= i < init.len() implies escape_text(#[trigger] init[i].id) == init[i].id by {
            assert(init[i] == ts[i]);
        }
        lemma_tasks(st, init);
        let mid = apply_all(st, tasks_tokens(init));
        lemma_apply_all_concat(st, tasks_tokens(init), task_tokens(ts.last()));
        assert(ts.last() == ts[ts.len() - 1]);
        lemma_task(mid, ts.last());
        assert((st.tasks + init).push(ts.last()) =~= st.tasks + ts);
    }
}

/// The name of a tier reads back as that tier.
proof fn lemma_tier_name(t: Tier)
    ensures
        Tier::spec_parse(t.spec_name()) == Some(t),
{
    reveal_strlit("xl");
    reveal_strlit("large");
    reveal_strlit("default");
    reveal_strlit("tight");
    let n = t.spec_name();
    assert(crate::text::ascii_lower_text(n) =~= n) by {
        assert forall|i: int| 0 <= i < n.len() implies crate::text::ascii_lower(#[trigger] n[i]) == n[i] by {
            assert('a' <= n[i] <= 'z');
        }
    }
    assert("large"@.len() != "xl"@.len());
    assert("default"@.len() != "xl"@.len() && "default"@.len() != "large"@.len());
    assert("tight"@.len() != "xl"@.len() && "tight"@[0] != "large"@[0] && "tight"@.len() != "default"@.len());
}

/// The `<budget>` tag of `p` reads back as its tier and line budget.
proof fn lemma_budget(p: PlanView)
    ensures
        budget_attrs(budget_tokens_attrs(p), Tier::Default, 0) == (p.budget_tier, p.budget_lines),
{
    lemma_literals();
    lemma_name("tier"@);
    lemma_name("lines"@);
    lemma_name(p.budget_tier.spec_name());
    lemma_name(decimal(p.budget_lines as nat));
    lemma_tier_name(p.budget_tier);
    lemma_decimal_parses(p.budget_lines as nat, u32::MAX as nat);
    let attrs = budget_tokens_attrs(p);
    assert(attrs.drop_last().drop_last() =~= Seq::<(Seq<u8>, Seq<u8>)>::empty());
    assert(attrs.drop_last().last() == attrs[0]);
    let one = attrs.drop_last();
    assert(one.len() == 1);
    assert(budget_attrs(one.drop_last(), Tier::Default, 0) == (Tier::Default, 0u32));
    assert(one.last() == (encode_utf8("tier"@), encode_utf8(p.budget_tier.spec_name())));
    assert(utf8_or_empty(encode_utf8("tier"@)) == "tier"@);
    assert(lenient_text(encode_utf8(p.budget_tier.spec_name())) == p.budget_tier.spec_name());
    let b1 = budget_attrs(one, Tier::Default, 0);
    assert(b1 == (p.budget_tier, 0u32));
}

/// The events of a written plan up to the end of the document.
pub open spec fn plan_body_tokens(p: PlanView) -> Seq<TokenView> {
    head_tokens(p) + list_tokens("depends"@, "dep"@, p.depends) + list_tokens("files"@, "file"@, p.files)
        + list_tokens("skills_required"@, "skill"@, p.skills_required) + seq![
        TokenView::Start(encode_utf8("tasks"@), seq![]),
    ] + tasks_tokens(p.tasks) + seq![
        TokenView::End(encode_utf8("tasks"@)),
        TokenView::End(encode_utf8("plan"@)),
    ]
}

/// The events of a written plan from the declaration to the commit hint.
pub open spec fn head_tokens(p: PlanView) -> Seq<TokenView> {
    seq![TokenView::Other, TokenView::Start(encode_utf8("plan"@), id_attr(p.id))]
        + element_tokens("title"@, p.title) + element_tokens("wave"@, p.wave) + seq![
        TokenView::Empty(encode_utf8("budget"@), budget_tokens_attrs(p)),
    ] + element_tokens("commit_message_hint"@, p.commit_message_hint)
}

proof fn lemma_no_final_body(p: PlanView)
    ensures
        no_final(plan_body_tokens(p)),
{
    let a = seq![TokenView::Other, TokenView::Start(encode_utf8("plan"@), id_attr(p.id))];
    let et = element_tokens("title"@, p.title);
    let ew = element_tokens("wave"@, p.wave);
    let eb = seq![TokenView::Empty(encode_utf8("budget"@), budget_tokens_attrs(p))];
    let eh = element_tokens("commit_message_hint"@, p.commit_message_hint);
    let ld = list_tokens("depends"@, "dep"@, p.depends);
    let lf = list_tokens("files"@, "file"@, p.files);
    let ls = list_tokens("skills_required"@, "skill"@, p.skills_required);
    let st_ = seq![TokenView::Start(encode_utf8("tasks"@), seq![])];
    let tt = tasks_tokens(p.tasks);
    let en = seq![TokenView::End(encode_utf8("tasks"@)), TokenView::End(encode_utf8("plan"@))];
    lemma_no_final_element("title"@, p.title);
    lemma_no_final_element("wave"@, p.wave);
    lemma_no_final_element("commit_message_hint"@, p.commit_message_hint);
    lemma_no_final_list("depends"@, "dep"@, p.depends);
    lemma_no_final_list("files"@, "file"@, p.files);
    lemma_no_final_list("skills_required"@, "skill"@, p.skills_required);
    lemma_no_final_tasks(p.tasks);
    assert(no_final(a));
    assert(no_final(eb));
    assert(no_final(st_));
    assert(no_final(en));
    lemma_no_final_concat(a, et);
    lemma_no_final_concat(a + et, ew);
    lemma_no_final_concat(a + et + ew, eb);
    lemma_no_final_concat(a + et + ew + eb, eh);
    assert(head_tokens(p) == a + et + ew + eb + eh);
    let h = head_tokens(p);
    lemma_no_final_concat(h, ld);
    lemma_no_final_concat(h + ld, lf);
    lemma_no_final_concat(h + ld + lf, ls);
    lemma_no_final_concat(h + ld + lf + ls, st_);
    lemma_no_final_concat(h + ld + lf + ls + st_, tt);
    lemma_no_final_concat(h + ld + lf + ls + st_ + tt, en);
}

/// The head of a written plan sets its id, title, wave, budget and commit hint.
proof fn lemma_head(p: PlanView)
    requires
        escape_text(p.id) == p.id,
    ensures
        apply_all(initial_state(), head_tokens(p)) == (ReadState {
            id: p.id,
            title: p.title,
            wave: p.wave,
            budget_tier: p.budget_tier,
            budget_lines: p.budget_lines,
            commit_message_hint: p.commit_message_hint,
            target: "commit_message_hint"@,
            ..initial_state()
        }),
{
    lemma_literals();
    lemma_name("plan"@);
    lemma_name("budget"@);
    lemma_name(escape_text(p.id));
    let s0 = initial_state();
    let a = seq![TokenView::Other, TokenView::Start(encode_utf8("plan"@), id_attr(p.id))];
    let et = element_tokens("title"@, p.title);
    let ew = element_tokens("wave"@, p.wave);
    let eb = seq![TokenView::Empty(encode_utf8("budget"@), budget_tokens_attrs(p))];
    let eh = element_tokens("commit_message_hint"@, p.commit_message_hint);
    lemma_apply_all_concat(s0, a + et + ew + eb, eh);
    lemma_apply_all_concat(s0, a + et + ew, eb);
    lemma_apply_all_concat(s0, a + et, ew);
    lemma_apply_all_concat(s0, a, et);
    assert(a.drop_first() =~= seq![a[1]]);
    lemma_apply_one(apply_token(s0, a[0]), a[1]);
    assert(id_attr(p.id).drop_last() =~= Seq::<(Seq<u8>, Seq<u8>)>::empty());
    let s1 = apply_all(s0, a);
    assert(s1 == ReadState { id: p.id, target: "plan"@, ..s0 });
    if p.title.len() == 0 {
        assert(p.title =~= seq![]);
    }
    if p.wave.len() == 0 {
        assert(p.wave =~= seq![]);
    }
    if p.commit_message_hint.len() == 0 {
        assert(p.commit_message_hint =~= seq![]);
    }
    lemma_element(s1, "title"@, p.title);
    let s2 = apply_all(s1, et);
    assert(s2 == ReadState { id: p.id, title: p.title, target: "title"@, ..s0 });
    lemma_element(s2, "wave"@, p.wave);
    let s3 = apply_all(s2, ew);
    assert(s3 == ReadState { id: p.id, title: p.title, wave: p.wave, target: "wave"@, ..s0 });
    lemma_apply_one(s3, eb[0]);
    lemma_budget(p);
    let s4 = apply_all(s3, eb);
    lemma_element(s4, "commit_message_hint"@, p.commit_message_hint);
}

/// What the writer lays out, the reader reads back: the events of a written plan, as
/// `plan_tokens` lays them out, read to a state that holds exactly that plan, as long
/// as its ids need no escaping and its list items are not empty.
pub proof fn written_plan_reads_back(p: PlanView)
    requires
        reads_back(p),
    ensures
        read_events(initial_state(), plan_tokens(p)) matches Ok(st) && plan_of(st) == p,
{
    lemma_literals();
    lemma_name("tasks"@);
    lemma_name("plan"@);
    let s0 = initial_state();
    let h = head_tokens(p);
    let ld = list_tokens("depends"@, "dep"@, p.depends);
    let lf = list_tokens("files"@, "file"@, p.files);
    let ls = list_tokens("skills_required"@, "skill"@, p.skills_required);
    let st_ = seq![TokenView::Start(encode_utf8("tasks"@), seq![])];
    let tt = tasks_tokens(p.tasks);
    let en = seq![TokenView::End(encode_utf8("tasks"@)), TokenView::End(encode_utf8("plan"@))];
    let eof = seq![TokenView::Eof];
    let x = plan_body_tokens(p);
    assert(x == h + ld + lf + ls + st_ + tt + en);
    assert(plan_tokens(p) =~= x + eof);
    lemma_no_final_body(p);
    lemma_read_concat(s0, x, eof);
    let fin = apply_all(s0, x);
    assert(read_events(fin, eof) == Ok::<ReadState, Seq<char>>(fin));
    lemma_apply_all_concat(s0, h + ld + lf + ls + st_ + tt, en);
    lemma_apply_all_concat(s0, h + ld + lf + ls + st_, tt);
    lemma_apply_all_concat(s0, h + ld + lf + ls, st_);
    lemma_apply_all_concat(s0, h + ld + lf, ls);
    lemma_apply_all_concat(s0, h + ld, lf);
    lemma_apply_all_concat(s0, h, ld);
    lemma_head(p);
    let s5 = apply_all(s0, h);
    lemma_list(s5, "depends"@, "dep"@, p.depends);
    let s6 = apply_all(s5, ld);
    assert(seq![] + p.depends =~= p.depends);
    lemma_list(s6, "files"@, "file"@, p.files);
    let s7 = apply_all(s6, lf);
    assert(seq![] + p.files =~= p.files);
    lemma_list(s7, "skills_required"@, "skill"@, p.skills_required);
    let s8 = apply_all(s7, ls);
    assert(seq![] + p.skills_required =~= p.skills_required);
    lemma_apply_one(s8, st_[0]);
    let s9 = apply_all(s8, st_);
    lemma_tasks(s9, p.tasks);
    let s10 = apply_all(s9, tt);
    assert(seq![] + p.tasks =~= p.tasks);
    assert(en.drop_first() =~= seq![en[1]]);
    lemma_apply_one(apply_token(s10, en[0]), en[1]);
    assert(plan_of(fin) == p);
}

} // verus!
