//! Polls: a yes/no question, or a question and up to nine choices
//! separated by `|`, each choice shown after its letter emoji.
use vstd::prelude::*;
use crate::text::{append_chars, chars_of, join, join_chars, string_of, trim, trim_chars};

verus! {

/// The letter emojis, 🇦 to 🇮, that stand for the choices.
pub open spec fn letters() -> Seq<char> {
    seq!['🇦', '🇧', '🇨', '🇩', '🇪', '🇫', '🇬', '🇭', '🇮']
}

/// The most choices a poll can have: one per letter emoji.
pub const MAX_CHOICES: usize = 9;

/// `str::split` on a character: the pieces between separators, empty ones
/// included.
pub open spec fn split_on(s: Seq<char>, c: char) -> Seq<Seq<char>>
    decreases s.len(),
{
    if s.len() == 0 {
        seq![Seq::empty()]
    } else {
        let rest = split_on(s.drop_first(), c);
        if s[0] == c {
            seq![Seq::empty()] + rest
        } else {
            rest.update(0, seq![s[0]] + rest[0])
        }
    }
}

/// The trimmed pieces of the poll text.
pub open spec fn poll_parts(full: Seq<char>) -> Seq<Seq<char>> {
    split_on(trim(full), '|').map_values(|p: Seq<char>| trim(p))
}

/// The line that shows choice `i`.
pub open spec fn choice_line(i: int, choice: Seq<char>) -> Seq<char> {
    seq![letters()[i]] + " "@ + choice
}

/// The choices shown one per line, each after its letter.
pub open spec fn choices_text(choices: Seq<Seq<char>>) -> Seq<char> {
    join(Seq::new(choices.len(), |i: int| choice_line(i, choices[i])), "\n"@)
}

/// Why `poll` creates nothing.
#[derive(Clone, Copy, Debug, PartialEq, Eq)]
pub enum PollError {
    /// No text after the command.
    Usage,
    /// The text before the first `|` is blank.
    EmptyQuestion,
    /// More than nine choices.
    TooManyChoices,
}

/// The poll to post.
pub enum PollPlan {
    /// A yes/no question.
    YesNo { question: String },
    /// A question, the lines showing its choices, and how many choices
    /// there are (the first `count` letter emojis become reactions).
    Choices { question: String, lines: String, count: usize },
}

/// What `poll` posts for the text after the command.
pub open spec fn poll_spec(full: Seq<char>) -> Result<(Seq<char>, Option<Seq<Seq<char>>>), PollError> {
    let parts = poll_parts(full);
    if trim(full).len() == 0 {
        Err(PollError::Usage)
    } else if parts[0].len() == 0 {
        Err(PollError::EmptyQuestion)
    } else if parts.len() == 1 {
        Ok((parts[0], None))
    } else if parts.len() - 1 > 9 {
        Err(PollError::TooManyChoices)
    } else {
        Ok((parts[0], Some(parts.drop_first())))
    }
}

pub proof fn lemma_split_nonempty(s: Seq<char>, c: char)
    ensures
        split_on(s, c).len() >= 1,
    decreases s.len(),
{
    if s.len() > 0 {
        lemma_split_nonempty(s.drop_first(), c);
    }
}

/// The pieces of `s` between occurrences of `c`.
pub fn split_chars(s: &Vec<char>, c: char) -> (r: Vec<Vec<char>>)
    ensures
        r@.map_values(|p: Vec<char>| p@) == split_on(s@, c),
{
    let mut done: Vec<Vec<char>> = Vec::new();
    let mut cur: Vec<char> = Vec::new();
    let mut i: usize = 0;
    proof {
        lemma_split_nonempty(s@, c);
        assert(s@.skip(0) =~= s@);
        let sp = split_on(s@, c);
        assert(sp =~= seq![sp[0]] + sp.drop_first());
    }
    while i < s.len()
        invariant
            i <= s.len(),
            split_on(s@, c) == done@.map_values(|p: Vec<char>| p@) + seq![
                cur@ + split_on(s@.skip(i as int), c)[0],
            ] + split_on(s@.skip(i as int), c).drop_first(),
        decreases s.len() - i,
    {
        let ghost sp0 = split_on(s@.skip(i as int), c);
        let ghost sp1 = split_on(s@.skip(i + 1), c);
        proof {
            assert(s@.skip(i as int).drop_first() =~= s@.skip(i + 1));
            assert(s@.skip(i as int)[0] == s@[i as int]);
            lemma_split_nonempty(s@.skip(i + 1), c);
        }
        if s[i] == c {
            let ghost old_done = done@.map_values(|p: Vec<char>| p@);
            done.push(cur);
            cur = Vec::new();
            proof {
                assert(done@.map_values(|p: Vec<char>| p@) =~= old_done.push(
                    done@[done.len() - 1]@,
                ));
                assert(sp0 == seq![Seq::<char>::empty()] + sp1);
                assert(sp0.drop_first() =~= sp1);
                assert(sp1 =~= seq![sp1[0]] + sp1.drop_first());
                assert(cur@ + sp1[0] =~= sp1[0]);
            }
        } else {
            let ghost old_cur = cur@;
            cur.push(s[i]);
            proof {
                assert(sp0 == sp1.update(0, seq![s@[i as int]] + sp1[0]));
                assert(sp0.drop_first() =~= sp1.drop_first());
                assert(cur@ + sp1[0] =~= old_cur + (seq![s@[i as int]] + sp1[0]));
            }
        }
        i = i + 1;
    }
    proof {
        assert(s@.skip(i as int) =~= Seq::<char>::empty());
        assert(cur@ + Seq::<char>::empty() =~= cur@);
    }
    let ghost old_done = done@.map_values(|p: Vec<char>| p@);
    done.push(cur);
    assert(done@.map_values(|p: Vec<char>| p@) =~= old_done.push(done@[done.len() - 1]@));
    done
}

fn letter(i: usize) -> (c: char)
    requires
        i < 9,
    ensures
        c == letters()[i as int],
{
    if i == 0 {
        '🇦'
    } else if i == 1 {
        '🇧'
    } else if i == 2 {
        '🇨'
    } else if i == 3 {
        '🇩'
    } else if i == 4 {
        '🇪'
    } else if i == 5 {
        '🇫'
    } else if i == 6 {
        '🇬'
    } else if i == 7 {
        '🇭'
    } else {
        '🇮'
    }
}

/// The letter emoji of choice `i`, as a reaction.
pub fn letter_emoji(i: usize) -> (r: String)
    requires
        i < 9,
    ensures
        r@ == seq![letters()[i as int]],
{
    let mut v: Vec<char> = Vec::new();
    v.push(letter(i));
    string_of(&v)
}

/// The poll that `poll` posts for the text after the command.
pub fn plan_poll(full: &str) -> (r: Result<PollPlan, PollError>)
    ensures
        match (r, poll_spec(full@)) {
            (Ok(PollPlan::YesNo { question }), Ok((q, None))) => question@ == q,
            (Ok(PollPlan::Choices { question, lines, count }), Ok((q, Some(cs)))) => question@ == q
                && lines@ == choices_text(cs) && count == cs.len(),
            (Err(e), Err(f)) => e == f,
            _ => false,
        },
{
    let raw = chars_of(full);
    let t = trim_chars(&raw);
    if t.len() == 0 {
        return Err(PollError::Usage);
    }
    let pieces = split_chars(&t, '|');
    let ghost pieces_v = pieces@.map_values(|p: Vec<char>| p@);
    proof {
        lemma_split_nonempty(t@, '|');
    }
    let mut parts: Vec<Vec<char>> = Vec::new();
    let mut i: usize = 0;
    while i < pieces.len()
        invariant
            i <= pieces.len(),
            pieces_v == pieces@.map_values(|p: Vec<char>| p@),
            parts.len() == i,
            forall|j: int| 0 <= j < i ==> #[trigger] parts@[j]@ == trim(pieces_v[j]),
        decreases pieces.len() - i,
    {
        parts.push(trim_chars(&pieces[i]));
        i = i + 1;
    }
    let ghost pv = poll_parts(full@);
    assert(pv.len() == parts.len());
    assert forall|j: int| 0 <= j < parts.len() implies #[trigger] parts@[j]@ == pv[j] by {
        assert(pieces_v[j] == pieces@[j]@);
    }
    if parts[0].len() == 0 {
        return Err(PollError::EmptyQuestion);
    }
    let question = string_of(&parts[0]);
    if parts.len() == 1 {
        return Ok(PollPlan::YesNo { question });
    }
    let count = parts.len() - 1;
    if count > MAX_CHOICES {
        return Err(PollError::TooManyChoices);
    }
    let ghost cs = pv.drop_first();
    let mut lines: Vec<Vec<char>> = Vec::new();
    let mut k: usize = 0;
    while k < count
        invariant
            k <= count,
            count <= 9,
            count == parts.len() - 1,
            cs.len() == count,
            pv.len() == parts.len(),
            forall|j: int| 0 <= j < parts.len() ==> #[trigger] parts@[j]@ == pv[j],
            cs == pv.drop_first(),
            lines.len() == k,
            forall|j: int| 0 <= j < k ==> #[trigger] lines@[j]@ == choice_line(j, cs[j]),
        decreases count - k,
    {
        let mut line: Vec<char> = Vec::new();
        line.push(letter(k));
        append_chars(&mut line, &chars_of(" "));
        append_chars(&mut line, &parts[k + 1]);
        assert(parts@[k + 1]@ == cs[k as int]);
        lines.push(line);
        k = k + 1;
    }
    assert(lines@.map_values(|p: Vec<char>| p@) =~= Seq::new(
        cs.len(),
        |i: int| choice_line(i, cs[i]),
    ));
    let text = join_chars(&lines, &chars_of("\n"));
    Ok(PollPlan::Choices { question, lines: string_of(&text), count })
}


/// A poll that is posted has a non-blank question and, when it has
/// choices, from one to nine of them: one letter emoji each.
pub proof fn poll_choices_bounded(full: Seq<char>)
    ensures
        poll_spec(full) matches Ok((q, choices)) ==> q.len() > 0 && match choices {
            Some(cs) => 1 <= cs.len() <= MAX_CHOICES && cs.len() <= letters().len(),
            None => true,
        },
{
    lemma_split_nonempty(trim(full), '|');
}

/// The choice labels are the regional indicator letters 🇦, 🇧, 🇨, … in
/// order, so no two choices of a poll share a label or a reaction.
pub proof fn choice_labels_are_distinct()
    ensures
        letters().len() == MAX_CHOICES,
        forall|i: int| 0 <= i < letters().len() ==> (#[trigger] letters()[i]) as u32 == 0x1F1E6 + i,
        forall|i: int, j: int|
            0 <= i < j < letters().len() ==> #[trigger] letters()[i] != #[trigger] letters()[j],
{
    assert forall|i: int| 0 <= i < letters().len() implies (#[trigger] letters()[i]) as u32
        == 0x1F1E6 + i by {
        assert('🇦' as u32 == 0x1F1E6);
        assert('🇧' as u32 == 0x1F1E7);
        assert('🇨' as u32 == 0x1F1E8);
        assert('🇩' as u32 == 0x1F1E9);
        assert('🇪' as u32 == 0x1F1EA);
        assert('🇫' as u32 == 0x1F1EB);
        assert('🇬' as u32 == 0x1F1EC);
        assert('🇭' as u32 == 0x1F1ED);
        assert('🇮' as u32 == 0x1F1EE);
    }
    assert forall|i: int, j: int| 0 <= i < j < letters().len() implies #[trigger] letters()[i]
        != #[trigger] letters()[j] by {
        assert(letters()[i] as u32 == 0x1F1E6 + i);
        assert(letters()[j] as u32 == 0x1F1E6 + j);
    }
}

/// Each line of a poll's choices starts with its own label followed by a
/// space: two different choices never share the first character of their
/// lines.
pub proof fn poll_lines_have_distinct_labels(cs: Seq<Seq<char>>, i: int, j: int)
    requires
        0 <= i < cs.len() <= MAX_CHOICES,
        0 <= j < cs.len(),
        i != j,
    ensures
        choice_line(i, cs[i])[0] != choice_line(j, cs[j])[0],
        choice_line(i, cs[i])[0] as u32 == 0x1F1E6 + i,
        choice_line(i, cs[i])[1] == ' ',
{
    choice_labels_are_distinct();
    reveal_strlit(" ");
    assert(choice_line(i, cs[i])[0] == letters()[i]);
    assert(choice_line(j, cs[j])[0] == letters()[j]);
    assert(letters()[i] as u32 == 0x1F1E6 + i);
    assert(letters()[j] as u32 == 0x1F1E6 + j);
}

} // verus!
