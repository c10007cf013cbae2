use vstd::prelude::*;
use vstd::std_specs::iter::IteratorSpec;

use crate::command::{Command, ReactionState};
use crate::model::{text_of, Message, Reaction};
use crate::window::reaction_applied;

verus! {

/// A character with the Unicode `White_Space` property, the one that
/// `char::is_whitespace` and `str::trim` go by.
pub open spec fn white_space(c: char) -> bool {
    ('\u{9}' <= c && c <= '\u{d}') || c == ' ' || c == '\u{85}' || c == '\u{a0}' || c == '\u{1680}'
        || ('\u{2000}' <= c && c <= '\u{200a}') || c == '\u{2028}' || c == '\u{2029}' || c
        == '\u{202f}' || c == '\u{205f}' || c == '\u{3000}'
}

/// `s` without its leading white space.
pub open spec fn trim_start_of(s: Seq<char>) -> Seq<char>
    decreases s.len(),
{
    if s.len() > 0 && white_space(s[0]) {
        trim_start_of(s.drop_first())
    } else {
        s
    }
}

/// `s` without its trailing white space.
pub open spec fn trim_end_of(s: Seq<char>) -> Seq<char>
    decreases s.len(),
{
    if s.len() > 0 && white_space(s.last()) {
        trim_end_of(s.drop_last())
    } else {
        s
    }
}

/// What `str::trim` leaves of a line: the line without leading and trailing
/// white space.
pub open spec fn trim_of(s: Seq<char>) -> Seq<char> {
    trim_end_of(trim_start_of(s))
}

/// Relies on `str::trim`: the line without its leading and trailing white
/// space.
#[verifier::external_body]
fn trim_line(s: &str) -> (r: &str)
    ensures
        r@ == trim_of(s@),
{
    s.trim()
}

/// The pieces of `s` between newline characters, in order; one piece more
/// than there are newlines.
pub open spec fn split_at_newlines(s: Seq<char>) -> Seq<Seq<char>>
    decreases s.len(),
{
    if s.len() == 0 {
        seq![Seq::empty()]
    } else {
        let pieces = split_at_newlines(s.drop_last());
        if s.last() == '\n' {
            pieces.push(Seq::empty())
        } else {
            pieces.update(pieces.len() - 1, pieces.last().push(s.last()))
        }
    }
}

proof fn lemma_split_nonempty(s: Seq<char>)
    ensures
        split_at_newlines(s).len() >= 1,
    decreases s.len(),
{
    if s.len() > 0 {
        lemma_split_nonempty(s.drop_last());
    }
}

/// Relies on `String::push`: the character is appended.
#[verifier::external_body]
fn push_char(s: &mut String, c: char)
    ensures
        final(s)@ == old(s)@.push(c),
{
    s.push(c)
}

/// The lines of `s`: the pieces between `'\n'` characters.
pub fn split_newlines(s: &str) -> (r: Vec<String>)
    ensures
        text_of(r@) == split_at_newlines(s@),
{
    broadcast use vstd::string::axiom_spec_iter, vstd::string::next_postcondition;

    let mut chars = s.chars();
    let mut done: Vec<String> = Vec::new();
    let mut cur = String::new();
    let ghost mut n: int = 0;
    assert(s@.take(0) =~= Seq::<char>::empty());
    assert(text_of(done@).push(cur@) =~= split_at_newlines(s@.take(0)));
    loop
        invariant
            0 <= n <= s@.len(),
            chars.remaining() == s@.skip(n),
            text_of(done@).push(cur@) == split_at_newlines(s@.take(n)),
        ensures
            text_of(done@).push(cur@) == split_at_newlines(s@),
        decreases s@.len() - n,
    {
        let ghost before = chars.remaining();
        match chars.next() {
            Some(c) => {
                assert(before.len() > 0);
                assert(c == s@[n]);
                let ghost prefix = s@.take(n + 1);
                assert(prefix.drop_last() =~= s@.take(n));
                assert(prefix.last() == c);
                proof {
                    lemma_split_nonempty(s@.take(n));
                }
                if c == '\n' {
                    let mut piece = String::new();
                    std::mem::swap(&mut piece, &mut cur);
                    done.push(piece);
                    assert(text_of(done@).push(cur@) =~= split_at_newlines(prefix));
                } else {
                    push_char(&mut cur, c);
                    assert(text_of(done@).push(cur@) =~= split_at_newlines(prefix));
                }
                proof {
                    n = n + 1;
                }
                assert(chars.remaining() =~= s@.skip(n));
            },
            None => {
                assert(before.len() == 0);
                assert(s@.take(n) =~= s@);
                break;
            },
        }
    }
    let ghost pieces = text_of(done@);
    done.push(cur);
    assert(text_of(done@) =~= pieces.push(done@.last()@));
    done
}

/// A line that is empty once trimmed.
pub open spec fn blank(line: Seq<char>) -> bool {
    trim_of(line).len() == 0
}

/// Every line is blank (true of no lines at all).
pub open spec fn all_blank(lines: Seq<String>) -> bool {
    forall|i: int| 0 <= i < lines.len() ==> blank(#[trigger] lines[i]@)
}

/// Whether every line is blank.
pub fn lines_all_blank(lines: &Vec<String>) -> (r: bool)
    ensures
        r == all_blank(lines@),
{
    let mut i: usize = 0;
    while i < lines.len()
        invariant
            i <= lines@.len(),
            forall|j: int| 0 <= j < i ==> blank(#[trigger] lines@[j]@),
        decreases lines@.len() - i,
    {
        if !trim_line(lines[i].as_str()).is_empty() {
            return false;
        }
        i = i + 1;
    }
    true
}

/// Whether two sequences of lines hold the same text.
pub fn same_text(a: &Vec<String>, b: &Vec<String>) -> (r: bool)
    ensures
        r == (text_of(a@) == text_of(b@)),
{
    if a.len() != b.len() {
        assert(text_of(a@).len() != text_of(b@).len());
        return false;
    }
    let mut i: usize = 0;
    while i < a.len()
        invariant
            a@.len() == b@.len(),
            i <= a@.len(),
            forall|j: int| 0 <= j < i ==> (#[trigger] a@[j])@ == b@[j]@,
        decreases a@.len() - i,
    {
        if a[i] != b[i] {
            assert(text_of(a@)[i as int] != text_of(b@)[i as int]);
            return false;
        }
        i = i + 1;
    }
    assert(text_of(a@) =~= text_of(b@));
    true
}

/// Line by line, `lines` once trimmed is `existing`.
pub open spec fn trims_to(lines: Seq<String>, existing: Seq<String>) -> bool {
    &&& lines.len() == existing.len()
    &&& forall|i: int| 0 <= i < lines.len() ==> trim_of((#[trigger] lines[i])@) == existing[i]@
}

/// Whether `lines`, each one trimmed, are `existing`.
pub fn lines_trim_to(lines: &Vec<String>, existing: &Vec<String>) -> (r: bool)
    ensures
        r == trims_to(lines@, existing@),
{
    if lines.len() != existing.len() {
        return false;
    }
    let mut i: usize = 0;
    while i < lines.len()
        invariant
            lines@.len() == existing@.len(),
            i <= lines@.len(),
            forall|j: int| 0 <= j < i ==> trim_of((#[trigger] lines@[j])@) == existing@[j]@,
        decreases lines@.len() - i,
    {
        let trimmed = trim_line(lines[i].as_str()).to_owned();
        if trimmed != existing[i] {
            return false;
        }
        i = i + 1;
    }
    true
}

/// The command that an edit of `existing` into `lines` calls for: none when
/// the text is unchanged, or when trimming each new line gives the old text;
/// a deletion when every new line is blank; an edit otherwise.
pub open spec fn edit_outcome(existing: Message, lines: Vec<String>) -> Option<Command> {
    if text_of(lines@) == text_of(existing.lines@) || trims_to(lines@, existing.lines@) {
        None
    } else if all_blank(lines@) {
        Some(Command::DeleteMessage { conv_id: existing.conversation_id, msg_id: existing.id })
    } else {
        Some(
            Command::EditMessage {
                conv_id: existing.conversation_id,
                msg_id: existing.id,
                msg: lines,
            },
        )
    }
}

/// The command for editing `existing` into the given lines, if any.
pub fn edit_command(existing: &Message, lines: Vec<String>) -> (r: Option<Command>)
    ensures
        r == edit_outcome(*existing, lines),
{
    if same_text(&existing.lines, &lines) || lines_trim_to(&lines, &existing.lines) {
        None
    } else if lines_all_blank(&lines) {
        Some(Command::DeleteMessage { conv_id: existing.conversation_id, msg_id: existing.id })
    } else {
        Some(
            Command::EditMessage {
                conv_id: existing.conversation_id,
                msg_id: existing.id,
                msg: lines,
            },
        )
    }
}

/// The command for editing `existing` into the text `update`, whose lines
/// are separated by `'\n'`.
pub fn edit_text(existing: &Message, update: &str) -> (r: Option<Command>)
    ensures
        exists|lines: Vec<String>|
            text_of(lines@) == split_at_newlines(update@) && r == edit_outcome(*existing, lines),
{
    let lines = split_newlines(update);
    edit_command(existing, lines)
}

/// `r` holds a reaction with `emoji` by the identity `user`.
pub open spec fn reaction_has(r: Reaction, user: Seq<char>, emoji: Seq<char>) -> bool {
    r.emoji@ == emoji && holds_user(r.users@, user)
}

/// One of `users` is the identity `user`.
pub open spec fn holds_user(users: Seq<String>, user: Seq<char>) -> bool {
    exists|j: int| 0 <= j < users.len() && (#[trigger] users[j])@ == user
}

/// `user` has reacted with `emoji`.
pub open spec fn has_reacted(reactions: Seq<Reaction>, user: Seq<char>, emoji: Seq<char>) -> bool {
    exists|i: int| 0 <= i < reactions.len() && reaction_has(#[trigger] reactions[i], user, emoji)
}

/// The state that a reaction with `emoji` by `user` toggles to.
pub open spec fn toggled_state(reactions: Seq<Reaction>, user: Seq<char>, emoji: Seq<char>) -> ReactionState {
    if has_reacted(reactions, user, emoji) {
        ReactionState::Remove
    } else {
        ReactionState::Add
    }
}

fn users_contain(users: &Vec<String>, user: &String) -> (r: bool)
    ensures
        r == holds_user(users@, user@),
{
    let mut j: usize = 0;
    while j < users.len()
        invariant
            j <= users@.len(),
            forall|k: int| 0 <= k < j ==> (#[trigger] users@[k])@ != user@,
        decreases users@.len() - j,
    {
        if users[j] == *user {
            return true;
        }
        j = j + 1;
    }
    false
}

/// Whether `user` has reacted with `emoji`.
pub fn user_has_reacted(reactions: &Vec<Reaction>, user: &String, emoji: &String) -> (r: bool)
    ensures
        r == has_reacted(reactions@, user@, emoji@),
{
    let mut i: usize = 0;
    while i < reactions.len()
        invariant
            i <= reactions@.len(),
            forall|k: int| 0 <= k < i ==> !reaction_has(#[trigger] reactions@[k], user@, emoji@),
        decreases reactions@.len() - i,
    {
        if reactions[i].emoji == *emoji && users_contain(&reactions[i].users, user) {
            assert(reaction_has(reactions@[i as int], user@, emoji@));
            return true;
        }
        i = i + 1;
    }
    false
}

/// The command that toggles the reaction `emoji` of the local identity
/// `user` on `message`: add it when absent, remove it when present.
pub fn react_command(message: &Message, user: &String, emoji: String) -> (r: Command)
    ensures
        r == (Command::React {
            conversation_id: message.conversation_id,
            message_id: message.id,
            reaction_state: toggled_state(message.reactions@, user@, emoji@),
            emoji,
        }),
{
    let reaction_state = if user_has_reacted(&message.reactions, user, &emoji) {
        ReactionState::Remove
    } else {
        ReactionState::Add
    };
    Command::React {
        conversation_id: message.conversation_id,
        message_id: message.id,
        reaction_state,
        emoji,
    }
}

/// `users` with every occurrence of `user` taken out.
fn without_user(users: Vec<String>, user: &String) -> (r: Vec<String>)
    ensures
        forall|u: Seq<char>| #[trigger] holds_user(r@, u) == (u != user@ && holds_user(users@, u)),
{
    let mut r: Vec<String> = Vec::new();
    let mut i: usize = 0;
    while i < users.len()
        invariant
            i <= users@.len(),
            forall|u: Seq<char>|
                #[trigger] holds_user(r@, u) == (u != user@ && holds_user(users@.take(i as int), u)),
        decreases users@.len() - i,
    {
        let ghost prev = r@;
        let ghost seen = users@.take(i as int);
        let ghost next = users@.take(i + 1);
        assert(next =~= seen.push(users@[i as int]));
        if users[i] != *user {
            r.push(users[i].clone());
            assert forall|u: Seq<char>| #[trigger]
                holds_user(r@, u) == (u != user@ && holds_user(next, u)) by {
                if holds_user(r@, u) {
                    let j = choose|j: int| 0 <= j < r@.len() && (#[trigger] r@[j])@ == u;
                    if j < prev.len() {
                        assert(prev[j] == r@[j]);
                        assert(holds_user(prev, u));
                        let k = choose|k: int| 0 <= k < seen.len() && (#[trigger] seen[k])@ == u;
                        assert(next[k] == seen[k]);
                    } else {
                        assert(next[i as int]@ == u);
                    }
                }
                if u != user@ && holds_user(next, u) {
                    let j = choose|j: int| 0 <= j < next.len() && (#[trigger] next[j])@ == u;
                    if j < i {
                        assert(seen[j] == next[j]);
                        assert(holds_user(seen, u));
                        assert(holds_user(prev, u));
                        let k = choose|k: int| 0 <= k < prev.len() && (#[trigger] prev[k])@ == u;
                        assert(r@[k] == prev[k]);
                    } else {
                        assert(r@[prev.len() as int]@ == u);
                    }
                }
            }
        } else {
            assert forall|u: Seq<char>| #[trigger]
                holds_user(r@, u) == (u != user@ && holds_user(next, u)) by {
                if holds_user(prev, u) {
                    let k = choose|k: int| 0 <= k < seen.len() && (#[trigger] seen[k])@ == u;
                    assert(next[k] == seen[k]);
                }
                if u != user@ && holds_user(next, u) {
                    let j = choose|j: int| 0 <= j < next.len() && (#[trigger] next[j])@ == u;
                    assert(j < i);
                    assert(seen[j] == next[j]);
                }
            }
        }
        i = i + 1;
    }
    assert(users@.take(users@.len() as int) =~= users@);
    r
}

/// Applies a reaction change, made locally or reported by the backend: after
/// `Add`, `user` has reacted with `emoji`; after `Remove`, not. Every other
/// (identity, emoji) pair keeps its state.
pub fn apply_reaction(message: &mut Message, user: String, emoji: String, state: ReactionState)
    ensures
        state == ReactionState::Add ==> has_reacted(final(message).reactions@, user@, emoji@),
        state == ReactionState::Remove ==> !has_reacted(final(message).reactions@, user@, emoji@),
        forall|u: Seq<char>, e: Seq<char>|
            !(u == user@ && e == emoji@) ==> has_reacted(final(message).reactions@, u, e)
                == has_reacted(old(message).reactions@, u, e),
        final(message).conversation_id == old(message).conversation_id,
        final(message).id == old(message).id,
        final(message).sender == old(message).sender,
        final(message).lines == old(message).lines,
        final(message).attachments == old(message).attachments,
        final(message).reply_to == old(message).reply_to,
        final(message).edited == old(message).edited,
{
    match state {
        ReactionState::Add => add_reaction(&mut message.reactions, user, emoji),
        ReactionState::Remove => remove_reaction(&mut message.reactions, &user, &emoji),
    }
}

fn add_reaction(reactions: &mut Vec<Reaction>, user: String, emoji: String)
    ensures
        has_reacted(final(reactions)@, user@, emoji@),
        forall|u: Seq<char>, e: Seq<char>|
            !(u == user@ && e == emoji@) ==> has_reacted(final(reactions)@, u, e)
                == has_reacted(old(reactions)@, u, e),
{
    if user_has_reacted(&reactions, &user, &emoji) {
        return;
    }
    let ghost old_rs = reactions@;
    let mut i: usize = 0;
    while i < reactions.len()
        invariant
            i <= reactions@.len(),
            reactions@ == old_rs,
            old_rs == old(reactions)@,
            forall|k: int| 0 <= k < i ==> (#[trigger] reactions@[k]).emoji@ != emoji@,
        decreases reactions@.len() - i,
    {
        if reactions[i].emoji == emoji {
            let mut r = reactions.remove(i);
            let ghost old_r = r;
            let ghost uv = user@;
            r.users.push(user);
            assert(r.users@[old_r.users@.len() as int]@ == uv);
            assert(reaction_has(r, uv, emoji@));
            assert forall|u: Seq<char>, e: Seq<char>| !(u == uv && e == emoji@) implies reaction_has(
                r,
                u,
                e,
            ) == reaction_has(old_r, u, e) by {
                if reaction_has(r, u, e) {
                    let j = choose|j: int| 0 <= j < r.users@.len() && (#[trigger] r.users@[j])@ == u;
                    assert(j < old_r.users@.len());
                    assert(old_r.users@[j] == r.users@[j]);
                }
                if reaction_has(old_r, u, e) {
                    let j = choose|j: int|
                        0 <= j < old_r.users@.len() && (#[trigger] old_r.users@[j])@ == u;
                    assert(r.users@[j] == old_r.users@[j]);
                }
            }
            reactions.insert(i, r);
            assert(reactions@ == old_rs.update(i as int, r));
            assert(reaction_has(reactions@[i as int], uv, emoji@));
            assert forall|u: Seq<char>, e: Seq<char>| !(u == uv && e == emoji@) implies has_reacted(
                reactions@,
                u,
                e,
            ) == has_reacted(old_rs, u, e) by {
                if has_reacted(reactions@, u, e) {
                    let k = choose|k: int|
                        0 <= k < reactions@.len() && reaction_has(
                            #[trigger] reactions@[k],
                            u,
                            e,
                        );
                    if k != i {
                        assert(old_rs[k] == reactions@[k]);
                    } else {
                        assert(reactions@[k] == r);
                        assert(reaction_has(r, u, e));
                        assert(reaction_has(old_rs[k], u, e));
                    }
                }
                if has_reacted(old_rs, u, e) {
                    let k = choose|k: int| 0 <= k < old_rs.len() && reaction_has(#[trigger] old_rs[k], u, e);
                    if k != i {
                        assert(old_rs[k] == reactions@[k]);
                    } else {
                        assert(reactions@[k] == r);
                        assert(reaction_has(old_r, u, e));
                        assert(reaction_has(reactions@[k], u, e));
                    }
                }
            }
            return;
        }
        i = i + 1;
    }
    let ghost uv = user@;
    let ghost ev = emoji@;
    let mut users: Vec<String> = Vec::new();
    users.push(user);
    let r = Reaction { emoji, users };
    assert(r.users@[0]@ == uv);
    reactions.push(r);
    assert(reaction_has(reactions@[old_rs.len() as int], uv, ev));
    assert forall|u: Seq<char>, e: Seq<char>| !(u == uv && e == ev) implies has_reacted(
        reactions@,
        u,
        e,
    ) == has_reacted(old_rs, u, e) by {
        if has_reacted(reactions@, u, e) {
            let k = choose|k: int|
                0 <= k < reactions@.len() && reaction_has(#[trigger] reactions@[k], u, e);
            if k < old_rs.len() {
                assert(old_rs[k] == reactions@[k]);
            } else {
                assert(r.users@.len() == 1);
            }
        }
        if has_reacted(old_rs, u, e) {
            let k = choose|k: int| 0 <= k < old_rs.len() && reaction_has(#[trigger] old_rs[k], u, e);
            assert(old_rs[k] == reactions@[k]);
        }
    }
}

fn remove_reaction(reactions: &mut Vec<Reaction>, user: &String, emoji: &String)
    ensures
        !has_reacted(final(reactions)@, user@, emoji@),
        forall|u: Seq<char>, e: Seq<char>|
            !(u == user@ && e == emoji@) ==> has_reacted(final(reactions)@, u, e)
                == has_reacted(old(reactions)@, u, e),
{
    let ghost old_rs = reactions@;
    let mut i: usize = 0;
    while i < reactions.len()
        invariant
            i <= reactions@.len(),
            reactions@.len() == old_rs.len(),
            forall|k: int| 0 <= k < i ==> !reaction_has(#[trigger] reactions@[k], user@, emoji@),
            forall|k: int, u: Seq<char>, e: Seq<char>|
                0 <= k < old_rs.len() && !(u == user@ && e == emoji@) ==> #[trigger] reaction_has(
                    reactions@[k],
                    u,
                    e,
                ) == reaction_has(old_rs[k], u, e),
            forall|k: int| i <= k < old_rs.len() ==> #[trigger] reactions@[k] == old_rs[k],
        decreases reactions@.len() - i,
    {
        if reactions[i].emoji == *emoji {
            let ghost before = reactions@;
            let r = reactions.remove(i);
            let ghost old_r = r;
            let users = without_user(r.users, user);
            let nr = Reaction { emoji: r.emoji, users };
            assert(!reaction_has(nr, user@, emoji@));
            assert forall|u: Seq<char>, e: Seq<char>| !(u == user@ && e == emoji@) implies #[trigger]
                reaction_has(nr, u, e) == reaction_has(old_r, u, e) by {
                assert(holds_user(nr.users@, u) == (u != user@ && holds_user(old_r.users@, u)));
            }
            reactions.insert(i, nr);
            assert(reactions@ =~= before.update(i as int, nr));
            assert(old_r == old_rs[i as int]);
        }
        i = i + 1;
    }
    assert forall|u: Seq<char>, e: Seq<char>| !(u == user@ && e == emoji@) implies has_reacted(
        reactions@,
        u,
        e,
    ) == has_reacted(old_rs, u, e) by {
        if has_reacted(reactions@, u, e) {
            let k = choose|k: int|
                0 <= k < reactions@.len() && reaction_has(#[trigger] reactions@[k], u, e);
            assert(reaction_has(old_rs[k], u, e));
        }
        if has_reacted(old_rs, u, e) {
            let k = choose|k: int| 0 <= k < old_rs.len() && reaction_has(#[trigger] old_rs[k], u, e);
            assert(reaction_has(reactions@[k], u, e));
        }
    }
}

/// Toggling twice: reacting with `emoji` on a message where `user` has not
/// reacted with it sends `Add`; once that change is applied to the message,
/// reacting again with the same emoji sends `Remove`.
pub proof fn reaction_toggles(before: Message, after: Message, user: Seq<char>, emoji: Seq<char>)
    requires
        !has_reacted(before.reactions@, user, emoji),
        reaction_applied(before, after, user, emoji, toggled_state(before.reactions@, user, emoji)),
    ensures
        toggled_state(before.reactions@, user, emoji) == ReactionState::Add,
        toggled_state(after.reactions@, user, emoji) == ReactionState::Remove,
{
}

/// Edits that change nothing send nothing, also when the new lines differ
/// from the old ones only by surrounding white space; edits that blank every
/// line delete the message instead of editing it.
pub proof fn edit_suppression(existing: Message, lines: Vec<String>)
    ensures
        text_of(lines@) == text_of(existing.lines@) ==> edit_outcome(existing, lines) is None,
        trims_to(lines@, existing.lines@) ==> edit_outcome(existing, lines) is None,
        text_of(lines@) != text_of(existing.lines@) && !trims_to(lines@, existing.lines@) && all_blank(
            lines@,
        ) ==> edit_outcome(
            existing,
            lines,
        ) == Some(Command::DeleteMessage { conv_id: existing.conversation_id, msg_id: existing.id }),
{
}

} // verus!
