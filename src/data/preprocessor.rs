use crate::model::text::{chars_of, string_from_chars};
use vstd::prelude::*;

verus! {

/// Cleans assembly text before it is tokenized.
pub struct DataPreprocessor {
    pub normalize_registers: bool,
    pub remove_comments: bool,
}

/// `c` is white space in the Unicode sense, as `char::is_whitespace` reports it.
pub open spec fn is_white(c: char) -> bool {
    let u = c as u32;
    (0x9 <= u <= 0xd) || u == 0x20 || u == 0x85 || u == 0xa0 || u == 0x1680 || (0x2000 <= u
        <= 0x200a) || u == 0x2028 || u == 0x2029 || u == 0x202f || u == 0x205f || u == 0x3000
}

/// The first position at or after `i` that holds `c`, or the length when none does.
pub open spec fn find_from(s: Seq<char>, c: char, i: int) -> int
    decreases s.len() - i,
{
    if i < 0 || i >= s.len() {
        s.len() as int
    } else if s[i] == c {
        i
    } else {
        find_from(s, c, i + 1)
    }
}

pub proof fn lemma_find_from(s: Seq<char>, c: char, i: int)
    requires
        0 <= i <= s.len(),
    ensures
        i <= find_from(s, c, i) <= s.len(),
        find_from(s, c, i) < s.len() ==> s[find_from(s, c, i)] == c,
        forall|k: int| i <= k < find_from(s, c, i) ==> s[k] != c,
    decreases s.len() - i,
{
    if i < s.len() && s[i] != c {
        lemma_find_from(s, c, i + 1);
    }
}

/// The lines of `s` from position `start` on: the runs between newlines, where a final
/// empty run is no line.
pub open spec fn lines_from(s: Seq<char>, start: int) -> Seq<Seq<char>>
    decreases s.len() - start,
    via lines_from_decreases
{
    if start < 0 || start >= s.len() {
        Seq::empty()
    } else {
        let k = find_from(s, '\n', start);
        if k >= s.len() {
            seq![s.subrange(start, s.len() as int)]
        } else {
            seq![s.subrange(start, k)] + lines_from(s, k + 1)
        }
    }
}

#[via_fn]
proof fn lines_from_decreases(s: Seq<char>, start: int) {
    if 0 <= start < s.len() {
        lemma_find_from(s, '\n', start);
    }
}

/// `s` without its leading white space.
pub open spec fn trim_start(s: Seq<char>) -> Seq<char>
    decreases s.len(),
{
    if s.len() > 0 && is_white(s[0]) {
        trim_start(s.drop_first())
    } else {
        s
    }
}

/// `s` without its trailing white space.
pub open spec fn trim_end(s: Seq<char>) -> Seq<char>
    decreases s.len(),
{
    if s.len() > 0 && is_white(s.last()) {
        trim_end(s.drop_last())
    } else {
        s
    }
}

/// `s` without leading and trailing white space.
pub open spec fn trim(s: Seq<char>) -> Seq<char> {
    trim_end(trim_start(s))
}

/// What is left of one line: nothing for a line whose trimmed text starts a comment with
/// `;` or `#`; otherwise its trimmed text before the first `;`, trimmed again.
pub open spec fn clean_line(line: Seq<char>) -> Option<Seq<char>> {
    let t = trim(line);
    if t.len() > 0 && (t[0] == ';' || t[0] == '#') {
        None
    } else {
        Some(trim(t.subrange(0, find_from(t, ';', 0))))
    }
}

/// The cleaned lines that remain, in order.
pub open spec fn kept_lines(lines: Seq<Seq<char>>) -> Seq<Seq<char>>
    decreases lines.len(),
{
    if lines.len() == 0 {
        Seq::empty()
    } else {
        match clean_line(lines[0]) {
            Some(l) => seq![l] + kept_lines(lines.drop_first()),
            None => kept_lines(lines.drop_first()),
        }
    }
}

/// The lines joined with a newline between each two.
pub open spec fn join_lines(lines: Seq<Seq<char>>) -> Seq<char>
    decreases lines.len(),
{
    if lines.len() == 0 {
        Seq::empty()
    } else if lines.len() == 1 {
        lines[0]
    } else {
        join_lines(lines.drop_last()) + seq!['\n'] + lines.last()
    }
}

/// The text with comment lines dropped, trailing comments cut off and lines trimmed.
pub open spec fn without_comments(s: Seq<char>) -> Seq<char> {
    join_lines(kept_lines(lines_from(s, 0)))
}

/// `s` from position `i` on, with each occurrence of `from` replaced by `to`, scanning left
/// to right over occurrences that do not overlap.
pub open spec fn replace_from(s: Seq<char>, from: Seq<char>, to: Seq<char>, i: int) -> Seq<char>
    decreases s.len() - i,
{
    if i < 0 || i >= s.len() {
        Seq::empty()
    } else if from.len() > 0 && i + from.len() <= s.len() && s.subrange(i, i + from.len()) == from {
        to + replace_from(s, from, to, i + from.len())
    } else {
        seq![s[i]] + replace_from(s, from, to, i + 1)
    }
}

/// `s` with each occurrence of `from` replaced by `to`.
pub open spec fn replace_all(s: Seq<char>, from: Seq<char>, to: Seq<char>) -> Seq<char> {
    replace_from(s, from, to, 0)
}

/// The 32-bit general register names `eax` to `edx` replaced by their 64-bit names.
pub open spec fn with_wide_registers(s: Seq<char>) -> Seq<char> {
    replace_all(
        replace_all(
            replace_all(replace_all(s, "eax"@, "rax"@), "ebx"@, "rbx"@),
            "ecx"@,
            "rcx"@,
        ),
        "edx"@,
        "rdx"@,
    )
}

/// What `preprocess` makes of `s` with the given switches.
pub open spec fn preprocessed(remove_comments: bool, normalize_registers: bool, s: Seq<char>) -> Seq<char> {
    let a = if remove_comments { without_comments(s) } else { s };
    if normalize_registers { with_wide_registers(a) } else { a }
}

fn is_white_char(c: char) -> (r: bool)
    ensures
        r == is_white(c),
{
    let u = c as u32;
    (0x9 <= u && u <= 0xd) || u == 0x20 || u == 0x85 || u == 0xa0 || u == 0x1680 || (0x2000 <= u
        && u <= 0x200a) || u == 0x2028 || u == 0x2029 || u == 0x202f || u == 0x205f || u == 0x3000
}

/// The first position at or after `i` that holds `c`, or the length.
pub fn find_char(s: &Vec<char>, c: char, i: usize) -> (r: usize)
    requires
        i <= s@.len(),
    ensures
        r == find_from(s@, c, i as int),
{
    let mut k = i;
    proof {
        lemma_find_from(s@, c, i as int);
    }
    while k < s.len()
        invariant
            i <= k <= s@.len(),
            find_from(s@, c, i as int) == find_from(s@, c, k as int),
        decreases s@.len() - k,
    {
        if s[k] == c {
            return k;
        }
        k = k + 1;
    }
    k
}

/// The characters of `s` from `from` to `to`.
pub fn slice_chars(s: &Vec<char>, from: usize, to: usize) -> (r: Vec<char>)
    requires
        from <= to <= s@.len(),
    ensures
        r@ == s@.subrange(from as int, to as int),
{
    let mut r: Vec<char> = Vec::new();
    let mut k = from;
    while k < to
        invariant
            from <= k <= to <= s@.len(),
            r@ == s@.subrange(from as int, k as int),
        decreases to - k,
    {
        r.push(s[k]);
        assert(r@ =~= s@.subrange(from as int, k + 1));
        k = k + 1;
    }
    r
}

/// `s` with leading and trailing white space removed.
fn trim_chars(s: &Vec<char>) -> (r: Vec<char>)
    ensures
        r@ == trim(s@),
{
    let mut a: usize = 0;
    assert(s@.subrange(0, s@.len() as int) =~= s@);
    while a < s.len() && is_white_char(s[a])
        invariant
            a <= s@.len(),
            trim_start(s@) == trim_start(s@.subrange(a as int, s@.len() as int)),
        decreases s@.len() - a,
    {
        assert(s@.subrange(a as int, s@.len() as int).drop_first() =~= s@.subrange(a + 1, s@.len() as int));
        a = a + 1;
    }
    assert(trim_start(s@) == s@.subrange(a as int, s@.len() as int));
    let mut b: usize = s.len();
    while b > a && is_white_char(s[b - 1])
        invariant
            a <= b <= s@.len(),
            trim(s@) == trim_end(s@.subrange(a as int, b as int)),
        decreases b - a,
    {
        assert(s@.subrange(a as int, b as int).drop_last() =~= s@.subrange(a as int, b - 1));
        b = b - 1;
    }
    slice_chars(s, a, b)
}

proof fn lemma_kept_lines_cons(l: Seq<char>, rest: Seq<Seq<char>>)
    ensures
        kept_lines(seq![l] + rest) == match clean_line(l) {
            Some(c) => seq![c] + kept_lines(rest),
            None => kept_lines(rest),
        },
{
    assert((seq![l] + rest).drop_first() =~= rest);
    assert((seq![l] + rest)[0] == l);
}

impl DataPreprocessor {
    /// A preprocessor with both steps switched on.
    pub fn new() -> (r: Self)
        ensures
            r.normalize_registers,
            r.remove_comments,
    {
        DataPreprocessor { normalize_registers: true, remove_comments: true }
    }

    /// Removes comments, then renames registers, as far as each step is switched on.
    pub fn preprocess(&self, assembly: &str) -> (r: String)
        ensures
            r@ == preprocessed(self.remove_comments, self.normalize_registers, assembly@),
    {
        let mut result = assembly.to_owned();
        if self.remove_comments {
            result = self.remove_comments(result.as_str());
        }
        if self.normalize_registers {
            result = self.normalize_registers(result.as_str());
        }
        result
    }

    /// Cleans one line; `None` for a comment line.
    fn clean(&self, line: &Vec<char>) -> (r: Option<Vec<char>>)
        ensures
            r is Some <==> clean_line(line@) is Some,
            r matches Some(c) ==> clean_line(line@) == Some(c@),
    {
        let t = trim_chars(line);
        if t.len() > 0 && (t[0] == ';' || t[0] == '#') {
            return None;
        }
        let cut = find_char(&t, ';', 0);
        proof {
            lemma_find_from(t@, ';', 0);
        }
        let before = slice_chars(&t, 0, cut);
        Some(trim_chars(&before))
    }

    /// Drops comment lines, cuts trailing `;` comments and trims every line.
    fn remove_comments(&self, assembly: &str) -> (r: String)
        ensures
            r@ == without_comments(assembly@),
    {
        let s = chars_of(assembly);
        let ghost text = s@;
        let mut kept: Vec<Vec<char>> = Vec::new();
        let mut pos: usize = 0;
        while pos < s.len()
            invariant
                text == s@,
                pos <= s@.len(),
                kept@.map_values(|l: Vec<char>| l@) + kept_lines(lines_from(text, pos as int))
                    == kept_lines(lines_from(text, 0)),
            decreases s@.len() - pos,
        {
            let end = find_char(&s, '\n', pos);
            proof {
                lemma_find_from(text, '\n', pos as int);
            }
            let line = slice_chars(&s, pos, end);
            let ghost before = kept@.map_values(|l: Vec<char>| l@);
            let ghost rest = if end >= s@.len() {
                Seq::<Seq<char>>::empty()
            } else {
                lines_from(text, end + 1)
            };
            proof {
                assert(lines_from(text, pos as int) == seq![line@] + rest);
                lemma_kept_lines_cons(line@, rest);
            }
            match self.clean(&line) {
                Some(c) => {
                    kept.push(c);
                    assert(kept@.map_values(|l: Vec<char>| l@) =~= before + seq![c@]);
                },
                None => {},
            }
            if end >= s.len() {
                pos = s.len();
                assert(kept_lines(lines_from(text, pos as int)) =~= Seq::<Seq<char>>::empty());
            } else {
                pos = end + 1;
            }
        }
        assert(lines_from(text, pos as int) =~= Seq::<Seq<char>>::empty());
        let ghost lines = kept@.map_values(|l: Vec<char>| l@);
        assert(lines =~= kept_lines(lines_from(text, 0)));
        let mut out: Vec<char> = Vec::new();
        let mut i: usize = 0;
        while i < kept.len()
            invariant
                i <= kept@.len(),
                lines == kept@.map_values(|l: Vec<char>| l@),
                out@ == join_lines(lines.subrange(0, i as int)),
            decreases kept@.len() - i,
        {
            let ghost prev = out@;
            if i > 0 {
                out.push('\n');
            }
            let mut k: usize = 0;
            while k < kept[i].len()
                invariant
                    i < kept@.len(),
                    k <= kept@[i as int]@.len(),
                    out@ == prev + (if i > 0 { seq!['\n'] } else { Seq::empty() }) + kept@[i as int]@.subrange(0, k as int),
                decreases kept@[i as int]@.len() - k,
            {
                out.push(kept[i][k]);
                assert(out@ =~= prev + (if i > 0 { seq!['\n'] } else { Seq::empty() }) + kept@[i as int]@.subrange(0, k + 1));
                k = k + 1;
            }
            assert(lines.subrange(0, i + 1).drop_last() =~= lines.subrange(0, i as int));
            assert(kept@[i as int]@.subrange(0, k as int) =~= lines[i as int]);
            assert(out@ =~= join_lines(lines.subrange(0, i + 1)));
            i = i + 1;
        }
        assert(lines.subrange(0, lines.len() as int) =~= lines);
        string_from_chars(&out)
    }

    /// `s` with each occurrence of `from` replaced by `to`.
    fn replace_chars(s: &Vec<char>, from: &Vec<char>, to: &Vec<char>) -> (r: Vec<char>)
        ensures
            r@ == replace_all(s@, from@, to@),
    {
        let mut out: Vec<char> = Vec::new();
        let mut i: usize = 0;
        let n = s.len();
        while i < n
            invariant
                n == s@.len(),
                i <= n,
                out@ + replace_from(s@, from@, to@, i as int) == replace_all(s@, from@, to@),
            decreases n - i,
        {
            let ghost prev = out@;
            let mut matches = from.len() > 0 && from.len() <= n - i;
            if matches {
                let mut k: usize = 0;
                while k < from.len()
                    invariant
                        n == s@.len(),
                        i + from@.len() <= n,
                        k <= from@.len(),
                        matches == (forall|m: int| 0 <= m < k ==> s@[i + m] == from@[m]),
                    decreases from@.len() - k,
                {
                    if s[i + k] != from[k] {
                        matches = false;
                    }
                    k = k + 1;
                }
                if matches {
                    assert(s@.subrange(i as int, i + from@.len()) =~= from@);
                } else {
                    assert(s@.subrange(i as int, i + from@.len()) != from@) by {
                        let m = choose|m: int| 0 <= m < from@.len() && s@[i + m] != from@[m];
                        assert(s@.subrange(i as int, i + from@.len())[m] != from@[m]);
                    }
                }
            }
            if matches {
                let mut k: usize = 0;
                while k < to.len()
                    invariant
                        k <= to@.len(),
                        out@ == prev + to@.subrange(0, k as int),
                    decreases to@.len() - k,
                {
                    out.push(to[k]);
                    assert(out@ =~= prev + to@.subrange(0, k + 1));
                    k = k + 1;
                }
                assert(to@.subrange(0, to@.len() as int) =~= to@);
                assert(out@ + replace_from(s@, from@, to@, i + from@.len()) =~= prev + replace_from(s@, from@, to@, i as int));
                i = i + from.len();
            } else {
                out.push(s[i]);
                assert(out@ + replace_from(s@, from@, to@, i + 1) =~= prev + replace_from(s@, from@, to@, i as int));
                i = i + 1;
            }
        }
        assert(out@ + replace_from(s@, from@, to@, i as int) =~= out@);
        out
    }

    /// Renames the 32-bit general registers `eax` to `edx` to their 64-bit names.
    fn normalize_registers(&self, assembly: &str) -> (r: String)
        ensures
            r@ == with_wide_registers(assembly@),
    {
        let s = chars_of(assembly);
        let s = Self::replace_chars(&s, &chars_of("eax"), &chars_of("rax"));
        let s = Self::replace_chars(&s, &chars_of("ebx"), &chars_of("rbx"));
        let s = Self::replace_chars(&s, &chars_of("ecx"), &chars_of("rcx"));
        let s = Self::replace_chars(&s, &chars_of("edx"), &chars_of("rdx"));
        string_from_chars(&s)
    }
}

} // verus!
