use vstd::prelude::*;
use crate::batch::{Notice, NoticeModel};
use crate::model::Transition;
use crate::text::{decimal, occurs_in, push_decimal};

verus! {

/// The word for a reachability state.
pub open spec fn state_word(up: bool) -> Seq<char> {
    if up {
        "online"@
    } else {
        "offline"@
    }
}

/// The text of an individual notice: the target's name, its `host:port`,
/// and the state it left and entered.
pub open spec fn single_text(t: Transition) -> Seq<char> {
    (if t.current {
        "\u{2705} Server '"@
    } else {
        "\u{1F6A8} Server '"@
    }) + t.target.name@ + "' ("@ + t.target.host@ + ":"@ + decimal(t.target.port as int) + (
    if t.current {
        ") is back online (was offline)"@
    } else {
        ") is down (was online)"@
    })
}

/// The line of one member in an aggregated notice.
pub open spec fn member_line(t: Transition) -> Seq<char> {
    "\n"@ + t.target.name@ + " is now "@ + state_word(t.current)
}

pub open spec fn member_lines(ts: Seq<Transition>) -> Seq<char>
    decreases ts.len(),
{
    if ts.len() == 0 {
        Seq::empty()
    } else {
        member_lines(ts.drop_last()) + member_line(ts.last())
    }
}

pub open spec fn group_header(name: Seq<char>) -> Seq<char> {
    "\u{1F504} Status changes in group '"@ + name + "':\n"@
}

/// The text of an aggregated notice: a header naming the group, then one
/// line per changed member with its name and new state.
pub open spec fn grouped_text(name: Seq<char>, ts: Seq<Transition>) -> Seq<char> {
    group_header(name) + member_lines(ts)
}

pub open spec fn notice_text(n: NoticeModel) -> Seq<char> {
    match n {
        NoticeModel::Single { change } => single_text(change),
        NoticeModel::Grouped { group_name, changes, .. } => grouped_text(group_name, changes),
    }
}

fn push_state_word(out: &mut String, up: bool)
    ensures
        final(out)@ == old(out)@ + state_word(up),
{
    if up {
        out.append("online");
    } else {
        out.append("offline");
    }
}

/// Writes the text of an individual notice.
pub fn single_message(t: &Transition) -> (r: String)
    ensures
        r@ == single_text(*t),
{
    let mut r = String::new();
    if t.current {
        r.append("\u{2705} Server '");
    } else {
        r.append("\u{1F6A8} Server '");
    }
    r.append(t.target.name.as_str());
    r.append("' (");
    r.append(t.target.host.as_str());
    r.append(":");
    push_decimal(&mut r, t.target.port as i64);
    if t.current {
        r.append(") is back online (was offline)");
    } else {
        r.append(") is down (was online)");
    }
    assert(r@ =~= single_text(*t));
    r
}

/// Writes the text of an aggregated notice.
pub fn grouped_message(name: &String, ts: &Vec<Transition>) -> (r: String)
    ensures
        r@ == grouped_text(name@, ts@),
{
    let mut r = String::new();
    r.append("\u{1F504} Status changes in group '");
    r.append(name.as_str());
    r.append("':\n");
    assert(r@ =~= group_header(name@));
    let mut i: usize = 0;
    while i < ts.len()
        invariant
            i <= ts@.len(),
            r@ == group_header(name@) + member_lines(ts@.take(i as int)),
        decreases ts@.len() - i,
    {
        assert(ts@.take(i as int + 1).drop_last() =~= ts@.take(i as int));
        r.append("\n");
        r.append(ts[i].target.name.as_str());
        r.append(" is now ");
        push_state_word(&mut r, ts[i].current);
        assert(r@ =~= group_header(name@) + member_lines(ts@.take(i as int + 1)));
        i = i + 1;
    }
    assert(ts@.take(i as int) =~= ts@);
    r
}

/// Writes the text of a notice.
pub fn render(n: &Notice) -> (r: String)
    ensures
        r@ == notice_text(n@),
{
    match n {
        Notice::Single { change } => single_message(change),
        Notice::Grouped { group_name, changes, .. } => grouped_message(group_name, changes),
    }
}

proof fn lemma_line_in_lines(ts: Seq<Transition>, k: int)
    requires
        0 <= k < ts.len(),
    ensures
        occurs_in(member_line(ts[k]), member_lines(ts)),
    decreases ts.len(),
{
    let prev = member_lines(ts.drop_last());
    let all = member_lines(ts);
    let piece = member_line(ts[k]);
    if k < ts.len() - 1 {
        assert(ts.drop_last()[k] == ts[k]);
        lemma_line_in_lines(ts.drop_last(), k);
        let off = choose|off: int|
            0 <= off && off + piece.len() <= prev.len() && #[trigger] prev.subrange(off, off + piece.len()) == piece;
        assert(all.subrange(off, off + piece.len()) =~= prev.subrange(off, off + piece.len()));
    } else {
        assert(all.subrange(prev.len() as int, (prev.len() + piece.len()) as int) =~= piece);
    }
}

/// An aggregated notice names every member it lists, each with its new state.
pub proof fn aggregate_text_lists_every_member(name: Seq<char>, ts: Seq<Transition>, k: int)
    requires
        0 <= k < ts.len(),
    ensures
        occurs_in("\n"@ + ts[k].target.name@ + " is now "@ + state_word(ts[k].current), grouped_text(name, ts)),
{
    lemma_line_in_lines(ts, k);
    let lines = member_lines(ts);
    let piece = member_line(ts[k]);
    let h = group_header(name);
    let off = choose|off: int|
        0 <= off && off + piece.len() <= lines.len() && #[trigger] lines.subrange(off, off + piece.len()) == piece;
    assert(grouped_text(name, ts).subrange(h.len() + off, h.len() + off + piece.len()) =~= piece);
}

} // verus!
