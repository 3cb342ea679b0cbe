use crate::data::preprocessor::{find_char, find_from, lemma_find_from, slice_chars};
use crate::model::text::{chars_of, string_from_chars};
use vstd::prelude::*;

verus! {

/// `line` without one trailing carriage return.
pub open spec fn strip_cr(line: Seq<char>) -> Seq<char> {
    if line.len() > 0 && line.last() == '\r' {
        line.drop_last()
    } else {
        line
    }
}

/// The lines of `s` from `start` on, as a buffered reader yields them: split at `\n`, with
/// the `\r` of a `\r\n` ending removed; a final empty run is no line.
pub open spec fn text_lines_from(s: Seq<char>, start: int) -> Seq<Seq<char>>
    decreases s.len() - start,
    via text_lines_from_decreases
{
    if start < 0 || start >= s.len() {
        Seq::empty()
    } else {
        let k = find_from(s, '\n', start);
        if k >= s.len() {
            seq![s.subrange(start, s.len() as int)]
        } else {
            seq![strip_cr(s.subrange(start, k))] + text_lines_from(s, k + 1)
        }
    }
}

#[via_fn]
proof fn text_lines_from_decreases(s: Seq<char>, start: int) {
    if 0 <= start < s.len() {
        lemma_find_from(s, '\n', start);
    }
}

/// A line that opens a function: it starts with `.` and holds a `:`.
pub open spec fn is_header(line: Seq<char>) -> bool {
    line.len() > 0 && line[0] == '.' && line.contains(':')
}

/// After reading `lines`: the functions finished so far, the text of the current one, and
/// whether a function has been opened. Each line of a function is kept with a newline.
pub open spec fn grouping(lines: Seq<Seq<char>>) -> (Seq<Seq<char>>, Seq<char>, bool)
    decreases lines.len(),
{
    if lines.len() == 0 {
        (Seq::empty(), Seq::empty(), false)
    } else {
        let (done, current, inside) = grouping(lines.drop_last());
        let line = lines.last();
        if is_header(line) {
            let finished = if inside && current.len() > 0 { done.push(current) } else { done };
            (finished, line.push('\n'), true)
        } else if inside {
            (done, current + line.push('\n'), true)
        } else {
            (done, current, false)
        }
    }
}

/// The functions of an assembly listing: each runs from a header line up to the next header
/// or the end; text before the first header belongs to none.
pub open spec fn functions_of(s: Seq<char>) -> Seq<Seq<char>> {
    let (done, current, inside) = grouping(text_lines_from(s, 0));
    if inside && current.len() > 0 {
        done.push(current)
    } else {
        done
    }
}

fn is_header_line(line: &Vec<char>) -> (r: bool)
    ensures
        r == is_header(line@),
{
    if line.len() == 0 || line[0] != '.' {
        return false;
    }
    let mut k: usize = 0;
    while k < line.len()
        invariant
            k <= line@.len(),
            line@.len() > 0 && line@[0] == '.',
            forall|m: int| 0 <= m < k ==> line@[m] != ':',
        decreases line@.len() - k,
    {
        if line[k] == ':' {
            assert(line@[k as int] == ':');
            return true;
        }
        k = k + 1;
    }
    false
}

fn append_chars(out: &mut Vec<char>, add: &Vec<char>)
    ensures
        final(out)@ == old(out)@ + add@,
{
    let mut k: usize = 0;
    while k < add.len()
        invariant
            k <= add@.len(),
            out@ == old(out)@ + add@.subrange(0, k as int),
        decreases add@.len() - k,
    {
        out.push(add[k]);
        assert(out@ =~= old(out)@ + add@.subrange(0, k + 1));
        k = k + 1;
    }
    assert(add@.subrange(0, k as int) =~= add@);
}

/// Splits an assembly listing into functions and pairs each with itself, as the
/// unoptimized and the optimized form of one example.
pub fn function_pairs(assembly: &str) -> (r: Vec<(String, String)>)
    ensures
        r@.len() == functions_of(assembly@).len(),
        forall|i: int| 0 <= i < r@.len() ==> (#[trigger] r@[i]).0@ == functions_of(assembly@)[i]
            && r@[i].1@ == functions_of(assembly@)[i],
{
    let s = chars_of(assembly);
    let ghost text = s@;
    let ghost mut seen: Seq<Seq<char>> = Seq::empty();
    let mut done: Vec<Vec<char>> = Vec::new();
    let mut current: Vec<char> = Vec::new();
    let mut inside = false;
    let mut pos: usize = 0;
    proof {
        assert(done@.map_values(|f: Vec<char>| f@) =~= Seq::<Seq<char>>::empty());
    }
    while pos < s.len()
        invariant
            text == s@,
            pos <= s@.len(),
            seen + text_lines_from(text, pos as int) == text_lines_from(text, 0),
            grouping(seen) == (done@.map_values(|f: Vec<char>| f@), current@, inside),
        decreases s@.len() - pos,
    {
        let end = find_char(&s, '\n', pos);
        proof {
            lemma_find_from(text, '\n', pos as int);
        }
        let mut line = slice_chars(&s, pos, end);
        if end < s.len() && line.len() > 0 && line[line.len() - 1] == '\r' {
            line.pop();
        }
        let ghost rest = if end >= s@.len() {
            Seq::<Seq<char>>::empty()
        } else {
            text_lines_from(text, end + 1)
        };
        proof {
            assert(line@ =~= if end >= s@.len() {
                text.subrange(pos as int, s@.len() as int)
            } else {
                strip_cr(text.subrange(pos as int, end as int))
            });
            assert(text_lines_from(text, pos as int) == seq![line@] + rest);
            assert(seen.push(line@) + rest =~= seen + text_lines_from(text, pos as int));
            assert(seen.push(line@).drop_last() =~= seen);
        }
        let ghost old_done = done@.map_values(|f: Vec<char>| f@);
        let ghost old_current = current@;
        if is_header_line(&line) {
            let mut next: Vec<char> = Vec::new();
            append_chars(&mut next, &line);
            next.push('\n');
            if inside && current.len() > 0 {
                done.push(current);
                assert(done@.map_values(|f: Vec<char>| f@) =~= old_done.push(old_current));
            }
            current = next;
            inside = true;
        } else if inside {
            append_chars(&mut current, &line);
            current.push('\n');
        }
        proof {
            assert(current@ =~= grouping(seen.push(line@)).1);
            seen = seen.push(line@);
        }
        if end >= s.len() {
            pos = s.len();
        } else {
            pos = end + 1;
        }
    }
    proof {
        assert(text_lines_from(text, pos as int) =~= Seq::<Seq<char>>::empty());
        assert(seen =~= text_lines_from(text, 0));
    }
    if inside && current.len() > 0 {
        let ghost old_done = done@.map_values(|f: Vec<char>| f@);
        let ghost old_current = current@;
        done.push(current);
        assert(done@.map_values(|f: Vec<char>| f@) =~= old_done.push(old_current));
    }
    let ghost functions = done@.map_values(|f: Vec<char>| f@);
    assert(functions == functions_of(assembly@));
    let mut pairs: Vec<(String, String)> = Vec::new();
    let mut i: usize = 0;
    while i < done.len()
        invariant
            i <= done@.len(),
            functions == done@.map_values(|f: Vec<char>| f@),
            pairs@.len() == i,
            forall|k: int| 0 <= k < i ==> (#[trigger] pairs@[k]).0@ == functions[k] && pairs@[k].1@ == functions[k],
        decreases done@.len() - i,
    {
        let text = string_from_chars(&done[i]);
        let copy = text.clone();
        pairs.push((text, copy));
        i = i + 1;
    }
    pairs
}

} // verus!
