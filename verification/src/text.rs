//! Small verified text utilities shared by the query builders, the JSON
//! framing and the session engine: character access, decimal formatting,
//! substring search and char-bounded truncation.

use vstd::prelude::*;
use vstd::string::StrSliceExecFns;
use vstd::string::StringExecFns;

verus! {

/// Relies on `String::push`: appends exactly the one character.
#[verifier::external_body]
pub fn push_char(s: &mut String, c: char)
    ensures
        final(s)@ == old(s)@.push(c),
{
    s.push(c);
}

/// The characters of `s`, as a vector.
pub fn chars_of(s: &str) -> (v: Vec<char>)
    ensures
        v@ == s@,
{
    let n = s.unicode_len();
    let mut v: Vec<char> = Vec::new();
    let mut i: usize = 0;
    while i < n
        invariant
            0 <= i <= n,
            n == s@.len(),
            v@ =~= s@.subrange(0, i as int),
        decreases n - i,
    {
        v.push(s.get_char(i));
        i = i + 1;
    }
    assert(v@ =~= s@);
    v
}

/// Builds a `String` out of a character vector.
pub fn string_from_chars(v: &Vec<char>) -> (s: String)
    ensures
        s@ == v@,
{
    let mut s = String::new();
    let mut i: usize = 0;
    while i < v.len()
        invariant
            0 <= i <= v@.len(),
            s@ =~= v@.subrange(0, i as int),
        decreases v@.len() - i,
    {
        push_char(&mut s, v[i]);
        i = i + 1;
    }
    assert(s@ =~= v@);
    s
}

/// Character-wise string equality.
pub fn str_eq(a: &str, b: &str) -> (r: bool)
    ensures
        r == (a@ == b@),
{
    let n = a.unicode_len();
    let m = b.unicode_len();
    if n != m {
        return false;
    }
    let mut i: usize = 0;
    while i < n
        invariant
            0 <= i <= n,
            n == a@.len(),
            n == b@.len(),
            forall|j: int| 0 <= j < i ==> a@[j] == b@[j],
        decreases n - i,
    {
        if a.get_char(i) != b.get_char(i) {
            return false;
        }
        i = i + 1;
    }
    assert(a@ =~= b@);
    true
}

/// The character for a single decimal digit.
pub open spec fn spec_digit(d: int) -> char {
    if d == 0 {
        '0'
    } else if d == 1 {
        '1'
    } else if d == 2 {
        '2'
    } else if d == 3 {
        '3'
    } else if d == 4 {
        '4'
    } else if d == 5 {
        '5'
    } else if d == 6 {
        '6'
    } else if d == 7 {
        '7'
    } else if d == 8 {
        '8'
    } else {
        '9'
    }
}

/// The decimal rendering of a non-negative integer.
pub open spec fn spec_dec(n: nat) -> Seq<char>
    decreases n,
{
    if n < 10 {
        seq![spec_digit(n as int)]
    } else {
        spec_dec(n / 10).push(spec_digit((n % 10) as int))
    }
}

/// The decimal rendering of an integer, with a leading minus sign when
/// negative.
pub open spec fn spec_dec_signed(n: int) -> Seq<char> {
    if n >= 0 {
        spec_dec(n as nat)
    } else {
        seq!['-'] + spec_dec((-n) as nat)
    }
}

fn digit_char(d: u64) -> (c: char)
    requires
        d < 10,
    ensures
        c == spec_digit(d as int),
{
    if d == 0 {
        '0'
    } else if d == 1 {
        '1'
    } else if d == 2 {
        '2'
    } else if d == 3 {
        '3'
    } else if d == 4 {
        '4'
    } else if d == 5 {
        '5'
    } else if d == 6 {
        '6'
    } else if d == 7 {
        '7'
    } else if d == 8 {
        '8'
    } else {
        '9'
    }
}

/// Renders `n` in decimal.
pub fn u64_to_dec(n: u64) -> (s: String)
    ensures
        s@ == spec_dec(n as nat),
    decreases n,
{
    if n < 10 {
        let mut s = String::new();
        push_char(&mut s, digit_char(n));
        assert(s@ =~= spec_dec(n as nat));
        s
    } else {
        let mut s = u64_to_dec(n / 10);
        push_char(&mut s, digit_char(n % 10));
        assert(s@ =~= spec_dec(n as nat));
        s
    }
}

/// Renders `n` in decimal.
pub fn usize_to_dec(n: usize) -> (s: String)
    ensures
        s@ == spec_dec(n as nat),
{
    u64_to_dec(n as u64)
}

/// Renders `n` in decimal, with a minus sign when negative.
pub fn i64_to_dec(n: i64) -> (s: String)
    ensures
        s@ == spec_dec_signed(n as int),
{
    if n >= 0 {
        u64_to_dec(n as u64)
    } else {
        let mag: u64 = ((-(n + 1)) as u64) + 1;
        assert(mag as int == -(n as int));
        let mut s = String::new();
        push_char(&mut s, '-');
        let d = u64_to_dec(mag);
        s.append(d.as_str());
        assert(s@ =~= spec_dec_signed(n as int));
        s
    }
}

/// Truncation of `s` to at most `max` characters, with a trailing ellipsis
/// marker when anything was cut.
pub open spec fn spec_truncate(s: Seq<char>, max: nat) -> Seq<char> {
    if s.len() <= max {
        s
    } else {
        s.subrange(0, max as int) + "..."@
    }
}

/// Truncates `msg` to at most `max_len` characters, appending "..." when the
/// message was longer.
pub fn truncate_message(msg: &str, max_len: usize) -> (r: String)
    ensures
        r@ == spec_truncate(msg@, max_len as nat),
{
    let n = msg.unicode_len();
    if n <= max_len {
        msg.to_owned()
    } else {
        let head = msg.substring_char(0, max_len);
        let mut s = head.to_owned();
        s.append("...");
        s
    }
}

/// True of ASCII whitespace.
pub open spec fn spec_is_space(c: char) -> bool {
    c == ' ' || c == '\t' || c == '\n' || c == '\r'
}

/// Tests a character for ASCII whitespace.
pub fn is_space_char(c: char) -> (r: bool)
    ensures
        r == spec_is_space(c),
{
    c == ' ' || c == '\t' || c == '\n' || c == '\r'
}

/// How many characters the word at the front of `s` runs for: zero on empty
/// text or leading whitespace.
pub open spec fn spec_word_len(s: Seq<char>) -> nat
    decreases s.len(),
{
    if s.len() == 0 || spec_is_space(s[0]) {
        0
    } else {
        1 + spec_word_len(s.skip(1))
    }
}

/// The front word never runs past the end of the text.
pub proof fn lemma_word_len_le(s: Seq<char>)
    ensures
        spec_word_len(s) <= s.len(),
    decreases s.len(),
{
    if s.len() > 0 && !spec_is_space(s[0]) {
        lemma_word_len_le(s.skip(1));
    }
}

/// The words of `s`, split on whitespace, in order.
pub open spec fn spec_split_words(s: Seq<char>) -> Seq<Seq<char>>
    decreases s.len(),
    when s.len() >= 0
    via spec_split_words_decreases
{
    if s.len() == 0 {
        Seq::empty()
    } else if spec_is_space(s[0]) {
        spec_split_words(s.skip(1))
    } else {
        seq![s.take(spec_word_len(s) as int)] + spec_split_words(s.skip(spec_word_len(s) as int))
    }
}

#[via_fn]
proof fn spec_split_words_decreases(s: Seq<char>) {
    if s.len() > 0 && !spec_is_space(s[0]) {
        lemma_word_len_le(s);
        assert(spec_word_len(s) >= 1);
    }
}

/// The word at the front runs exactly to the first whitespace (or the end).
proof fn lemma_word_len_at(s: Seq<char>, k: int)
    requires
        0 <= k <= s.len(),
        forall|j: int| 0 <= j < k ==> !spec_is_space(#[trigger] s[j]),
        k < s.len() ==> spec_is_space(s[k]),
    ensures
        spec_word_len(s) == k,
    decreases k,
{
    if k == 0 {
    } else {
        assert(!spec_is_space(s[0]));
        assert(forall|j: int| 0 <= j < k - 1 ==> !spec_is_space(#[trigger] s.skip(1)[j]));
        if k - 1 < s.skip(1).len() {
            assert(s.skip(1)[k - 1] == s[k]);
        }
        lemma_word_len_at(s.skip(1), k - 1);
    }
}

/// Every split word is non-empty and holds no whitespace.
pub proof fn lemma_split_words_wf(s: Seq<char>)
    ensures
        forall|i: int|
            0 <= i < spec_split_words(s).len() ==> (#[trigger] spec_split_words(s)[i]).len() > 0
                && (forall|j: int|
                0 <= j < spec_split_words(s)[i].len() ==> !spec_is_space(
                    #[trigger] spec_split_words(s)[i][j],
                )),
    decreases s.len(),
{
    if s.len() == 0 {
    } else if spec_is_space(s[0]) {
        lemma_split_words_wf(s.skip(1));
        assert(spec_split_words(s) == spec_split_words(s.skip(1)));
        assert forall|i: int|
            0 <= i < spec_split_words(s).len() implies (#[trigger] spec_split_words(s)[i]).len()
            > 0 && (forall|j: int|
            0 <= j < spec_split_words(s)[i].len() ==> !spec_is_space(
                #[trigger] spec_split_words(s)[i][j],
            )) by {
            assert(spec_split_words(s)[i] == spec_split_words(s.skip(1))[i]);
            assert forall|j: int|
                0 <= j < spec_split_words(s)[i].len() implies !spec_is_space(
                #[trigger] spec_split_words(s)[i][j],
            ) by {
                assert(spec_split_words(s)[i][j] == spec_split_words(s.skip(1))[i][j]);
            }
        }
    } else {
        let wl = spec_word_len(s) as int;
        proof_word_prefix_nonspace(s);
        lemma_word_len_le(s);
        lemma_split_words_wf(s.skip(wl));
        assert forall|i: int|
            0 <= i < spec_split_words(s).len() implies (#[trigger] spec_split_words(s)[i]).len()
            > 0 && (forall|j: int|
            0 <= j < spec_split_words(s)[i].len() ==> !spec_is_space(
                #[trigger] spec_split_words(s)[i][j],
            )) by {
            if i == 0 {
                assert(spec_split_words(s)[0] == s.take(wl));
                assert(s.take(wl).len() == wl);
                assert(wl >= 1);
                assert forall|j: int|
                    0 <= j < spec_split_words(s)[0].len() implies !spec_is_space(
                    #[trigger] spec_split_words(s)[0][j],
                ) by {
                    assert(spec_split_words(s)[0][j] == s.take(wl)[j]);
                    assert(s.take(wl)[j] == s[j]);
                    assert(!spec_is_space(s[j]));
                }
            } else {
                assert(spec_split_words(s)[i] == spec_split_words(s.skip(wl))[i - 1]);
                assert(spec_split_words(s.skip(wl))[i - 1].len() > 0);
                assert forall|j: int|
                    0 <= j < spec_split_words(s)[i].len() implies !spec_is_space(
                    #[trigger] spec_split_words(s)[i][j],
                ) by {
                    assert(spec_split_words(s)[i][j] == spec_split_words(s.skip(wl))[i - 1][j]);
                    assert(!spec_is_space(spec_split_words(s.skip(wl))[i - 1][j]));
                }
            }
        }
    }
}

/// Every character of the front word is non-whitespace.
proof fn proof_word_prefix_nonspace(s: Seq<char>)
    requires
        s.len() > 0,
        !spec_is_space(s[0]),
    ensures
        forall|j: int| 0 <= j < spec_word_len(s) ==> !spec_is_space(#[trigger] s[j]),
    decreases s.len(),
{
    lemma_word_len_le(s);
    let t = s.skip(1);
    if t.len() > 0 && !spec_is_space(t[0]) {
        proof_word_prefix_nonspace(t);
        lemma_word_len_le(t);
        assert forall|j: int| 0 <= j < spec_word_len(s) implies !spec_is_space(
            #[trigger] s[j],
        ) by {
            if j > 0 {
                assert(spec_word_len(s) == 1 + spec_word_len(t));
                assert(0 <= j - 1 < spec_word_len(t));
                assert(!spec_is_space(t[j - 1]));
                assert(t[j - 1] == s[j]);
            }
        }
    } else {
        assert(spec_word_len(t) == 0);
        assert(spec_word_len(s) == 1);
    }
}

/// Splits on whitespace: exactly the words of the text, in order; every
/// word is non-empty and holds no whitespace, and every non-whitespace
/// character of the text lands in its word.
pub fn split_words(s: &str) -> (r: Vec<String>)
    ensures
        r@.map_values(|w: String| w@) == spec_split_words(s@),
        forall|i: int|
            0 <= i < r@.len() ==> (#[trigger] r@[i])@.len() > 0 && (forall|j: int|
                0 <= j < r@[i]@.len() ==> !spec_is_space(#[trigger] r@[i]@[j])),
    decreases s@.len(),
{
    let n = s.unicode_len();
    if n == 0 {
        let out: Vec<String> = Vec::new();
        assert(out@.map_values(|w: String| w@) =~= spec_split_words(s@));
        return out;
    }
    let c = s.get_char(0);
    if c == ' ' || c == '\t' || c == '\n' || c == '\r' {
        let rest = s.substring_char(1, n);
        assert(rest@ =~= s@.skip(1));
        let out = split_words(rest);
        assert(out@.map_values(|w: String| w@) == spec_split_words(s@));
        out
    } else {
        let mut k: usize = 1;
        while k < n && !is_space_char(s.get_char(k))
            invariant
                1 <= k <= n,
                n == s@.len(),
                forall|j: int| 0 <= j < k ==> !spec_is_space(#[trigger] s@[j]),
            decreases n - k,
        {
            k = k + 1;
        }
        proof {
            lemma_word_len_at(s@, k as int);
        }
        let word = s.substring_char(0, k);
        assert(word@ =~= s@.take(k as int));
        let rest = s.substring_char(k, n);
        assert(rest@ =~= s@.skip(k as int));
        let mut out: Vec<String> = Vec::new();
        out.push(word.to_owned());
        let mut tail = split_words(rest);
        let ghost tail_view = tail@.map_values(|w: String| w@);
        out.append(&mut tail);
        proof {
            assert forall|i: int|
                0 <= i < out@.len() implies out@.map_values(|w: String| w@)[i]
                == #[trigger] spec_split_words(s@)[i] by {
                assert(out@.map_values(|w: String| w@)[i] == out@[i]@);
                if i == 0 {
                    assert(out@[0]@ == s@.take(k as int));
                    assert(spec_split_words(s@)[0] == s@.take(spec_word_len(s@) as int));
                } else {
                    assert(out@[i]@ == tail_view[i - 1]);
                    assert(spec_split_words(s@)[i] == spec_split_words(s@.skip(k as int))[i - 1]);
                }
            }
            assert(out@.map_values(|w: String| w@) =~= spec_split_words(s@));
            lemma_split_words_wf(s@);
            assert forall|i: int|
                0 <= i < out@.len() implies (#[trigger] out@[i])@.len() > 0 && (forall|j: int|
                0 <= j < out@[i]@.len() ==> !spec_is_space(#[trigger] out@[i]@[j])) by {
                assert(out@[i]@ == spec_split_words(s@)[i]);
            }
        }
        out
    }
}

/// The text with every leading slash dropped.
pub open spec fn spec_strip_slashes(s: Seq<char>) -> Seq<char>
    decreases s.len(),
{
    if s.len() > 0 && s[0] == '/' {
        spec_strip_slashes(s.skip(1))
    } else {
        s
    }
}

proof fn lemma_strip_slashes_skip(s: Seq<char>, i: int)
    requires
        0 <= i <= s.len(),
        forall|j: int| 0 <= j < i ==> (#[trigger] s[j]) == '/',
        i < s.len() ==> s[i] != '/',
    ensures
        spec_strip_slashes(s) == s.skip(i),
    decreases i,
{
    if i > 0 {
        assert(s[0] == '/');
        assert(forall|j: int| 0 <= j < i - 1 ==> (#[trigger] s.skip(1)[j]) == '/');
        if i - 1 < s.skip(1).len() {
            assert(s.skip(1)[i - 1] == s[i]);
        }
        lemma_strip_slashes_skip(s.skip(1), i - 1);
        assert(s.skip(1).skip(i - 1) =~= s.skip(i));
    } else {
        assert(s.skip(0) =~= s);
    }
}

/// Drops every leading slash off a command line.
pub fn strip_slashes(input: &str) -> (r: String)
    ensures
        r@ == spec_strip_slashes(input@),
{
    let cs = chars_of(input);
    let mut i: usize = 0;
    while i < cs.len() && cs[i] == '/'
        invariant
            0 <= i <= cs@.len(),
            cs@ == input@,
            forall|j: int| 0 <= j < i ==> (#[trigger] input@[j]) == '/',
        decreases cs@.len() - i,
    {
        i = i + 1;
    }
    proof {
        lemma_strip_slashes_skip(input@, i as int);
    }
    let mut out: Vec<char> = Vec::new();
    let mut k: usize = i;
    while k < cs.len()
        invariant
            i <= k <= cs@.len(),
            cs@ == input@,
            out@ =~= input@.subrange(i as int, k as int),
        decreases cs@.len() - k,
    {
        out.push(cs[k]);
        k = k + 1;
    }
    assert(out@ =~= input@.skip(i as int));
    string_from_chars(&out)
}



/// A single non-empty whitespace-free word splits to itself alone.
proof fn lemma_split_single_word(w: Seq<char>)
    requires
        w.len() > 0,
        forall|j: int| 0 <= j < w.len() ==> !spec_is_space(#[trigger] w[j]),
    ensures
        spec_split_words(w) == seq![w],
{
    lemma_word_len_at(w, w.len() as int);
    assert(spec_word_len(w) == w.len());
    assert(w.take(spec_word_len(w) as int) =~= w);
    assert(w.skip(spec_word_len(w) as int).len() == 0);
    assert(spec_split_words(w.skip(spec_word_len(w) as int)) =~= Seq::<Seq<char>>::empty());
    assert(spec_split_words(w) == seq![w.take(spec_word_len(w) as int)] + spec_split_words(
        w.skip(spec_word_len(w) as int),
    ));
    assert(spec_split_words(w) =~= seq![w]);
}

/// Appending text that opens with whitespace leaves the front word as it
/// was.
proof fn lemma_word_len_concat(x: Seq<char>, y: Seq<char>)
    requires
        y.len() > 0,
        spec_is_space(y[0]),
    ensures
        spec_word_len(x + y) == spec_word_len(x),
    decreases x.len(),
{
    if x.len() == 0 {
        assert(x + y =~= y);
        assert(spec_word_len(y) == 0);
    } else if spec_is_space(x[0]) {
        assert((x + y)[0] == x[0]);
    } else {
        assert((x + y)[0] == x[0]);
        assert((x + y).skip(1) =~= x.skip(1) + y);
        lemma_word_len_concat(x.skip(1), y);
    }
}

/// Splitting distributes over a single separating space.
proof fn lemma_split_concat_space(x: Seq<char>, y: Seq<char>)
    ensures
        spec_split_words(x + (seq![' '] + y)) == spec_split_words(x) + spec_split_words(y),
    decreases x.len(),
{
    let z = seq![' '] + y;
    assert(z[0] == ' ');
    if x.len() == 0 {
        assert(x + z =~= z);
        assert(z.skip(1) =~= y);
        assert(spec_split_words(z) == spec_split_words(y));
        assert(spec_split_words(x) + spec_split_words(y) =~= spec_split_words(y));
    } else if spec_is_space(x[0]) {
        assert((x + z)[0] == x[0]);
        assert((x + z).skip(1) =~= x.skip(1) + z);
        lemma_split_concat_space(x.skip(1), y);
    } else {
        assert((x + z)[0] == x[0]);
        lemma_word_len_concat(x, z);
        lemma_word_len_le(x);
        let wl = spec_word_len(x) as int;
        assert(wl >= 1);
        assert((x + z).take(wl) =~= x.take(wl));
        assert((x + z).skip(wl) =~= x.skip(wl) + z);
        lemma_split_concat_space(x.skip(wl), y);
        assert(spec_split_words(x + z) == seq![x.take(wl)] + (spec_split_words(x.skip(wl))
            + spec_split_words(y)));
        assert(seq![x.take(wl)] + (spec_split_words(x.skip(wl)) + spec_split_words(y)) =~= (
        seq![x.take(wl)] + spec_split_words(x.skip(wl))) + spec_split_words(y));
    }
}

/// The words of a sequence of lines, in order.
pub open spec fn spec_words_concat(lines: Seq<Seq<char>>) -> Seq<Seq<char>>
    decreases lines.len(),
{
    if lines.len() == 0 {
        Seq::empty()
    } else {
        spec_split_words(lines[0]) + spec_words_concat(lines.skip(1))
    }
}

proof fn lemma_words_concat_snoc(lines: Seq<Seq<char>>, l: Seq<char>)
    ensures
        spec_words_concat(lines.push(l)) == spec_words_concat(lines) + spec_split_words(l),
    decreases lines.len(),
{
    if lines.len() == 0 {
        assert(lines.push(l)[0] == l);
        assert(lines.push(l).skip(1) =~= Seq::<Seq<char>>::empty());
        assert(spec_words_concat(lines.push(l).skip(1)) =~= Seq::<Seq<char>>::empty());
        assert(spec_words_concat(lines.push(l)) == spec_split_words(l) + spec_words_concat(
            lines.push(l).skip(1),
        ));
        assert(spec_words_concat(lines) =~= Seq::<Seq<char>>::empty());
        assert(spec_words_concat(lines.push(l)) =~= spec_words_concat(lines)
            + spec_split_words(l));
    } else {
        assert(lines.push(l)[0] == lines[0]);
        assert(lines.push(l).skip(1) =~= lines.skip(1).push(l));
        lemma_words_concat_snoc(lines.skip(1), l);
        assert(spec_words_concat(lines.push(l)) == spec_split_words(lines[0])
            + spec_words_concat(lines.skip(1).push(l)));
        assert(spec_split_words(lines[0]) + (spec_words_concat(lines.skip(1))
            + spec_split_words(l)) =~= (spec_split_words(lines[0]) + spec_words_concat(
            lines.skip(1),
        )) + spec_split_words(l));
    }
}

fn push_line(lines: &mut Vec<String>, l: String)
    ensures
        final(lines)@ == old(lines)@.push(l),
        final(lines)@.map_values(|x: String| x@) == old(lines)@.map_values(|x: String| x@).push(
            l@,
        ),
{
    let ghost lv = l@;
    let ghost oldv = lines@;
    lines.push(l);
    proof {
        assert forall|j: int| 0 <= j < lines@.len() implies (#[trigger] lines@[j])@
            == oldv.map_values(|x: String| x@).push(lv)[j] by {
            if j < oldv.len() {
                assert(lines@[j] == oldv[j]);
                assert(oldv.map_values(|x: String| x@)[j] == oldv[j]@);
            } else {
                assert(lines@[j]@ == lv);
            }
        }
        assert(lines@.map_values(|x: String| x@) =~= oldv.map_values(|x: String| x@).push(lv));
    }
}

/// True of a wrapped line: it fits the width, or it is a single word (no
/// whitespace in it) too long to fit.
pub open spec fn spec_line_fits(line: Seq<char>, width: int) -> bool {
    line.len() <= width || (forall|j: int| 0 <= j < line.len() ==> !spec_is_space(#[trigger] line[j]))
}

/// Greedy word wrapping at `width` characters: words are joined by single
/// spaces and preserved in order — rejoining the lines' words yields
/// exactly the words of the text; every produced line fits the width or is
/// a single over-long word; zero width or empty text comes back as the one
/// unchanged line.
pub fn wrap_text(text: &str, width: usize) -> (r: Vec<String>)
    ensures
        r@.len() >= 1,
        width == 0 || text@.len() == 0 ==> r@.len() == 1 && r@[0]@ == text@,
        width > 0 && text@.len() > 0 ==> forall|i: int|
            0 <= i < r@.len() ==> spec_line_fits((#[trigger] r@[i])@, width as int),
        spec_words_concat(r@.map_values(|l: String| l@)) == spec_split_words(text@),
{
    if width == 0 || text.unicode_len() == 0 {
        let mut out: Vec<String> = Vec::new();
        out.push(text.to_owned());
        proof {
            let lv = out@.map_values(|l: String| l@);
            assert(lv[0] == text@);
            assert(lv.skip(1) =~= Seq::<Seq<char>>::empty());
            assert(spec_words_concat(Seq::<Seq<char>>::empty()) =~= Seq::<Seq<char>>::empty());
            assert(spec_words_concat(lv) == spec_split_words(text@) + spec_words_concat(
                lv.skip(1),
            ));
            assert(spec_words_concat(lv) =~= spec_split_words(text@));
        }
        return out;
    }
    let words = split_words(text);
    let ghost ws = spec_split_words(text@);
    let n = words.len();
    let mut lines: Vec<String> = Vec::new();
    let mut current = String::new();
    let mut i: usize = 0;
    let ghost mut j: int = 0;
    proof {
        assert(lines@.map_values(|l: String| l@) =~= Seq::<Seq<char>>::empty());
        assert(spec_words_concat(Seq::<Seq<char>>::empty()) =~= ws.subrange(0, 0));
        assert(spec_split_words(current@) =~= ws.subrange(0, 0));
    }
    while i < n
        invariant
            0 <= j <= i <= n,
            n == words@.len(),
            ws == spec_split_words(text@),
            words@.map_values(|w: String| w@) == ws,
            forall|a: int|
                0 <= a < words@.len() ==> (#[trigger] words@[a])@.len() > 0 && (forall|k: int|
                    0 <= k < words@[a]@.len() ==> !spec_is_space(#[trigger] words@[a]@[k])),
            spec_line_fits(current@, width as int),
            forall|a: int|
                0 <= a < lines@.len() ==> spec_line_fits((#[trigger] lines@[a])@, width as int),
            spec_words_concat(lines@.map_values(|l: String| l@)) == ws.subrange(0, j),
            spec_split_words(current@) == ws.subrange(j, i as int),
            current@.len() == 0 ==> j == i,
        decreases n - i,
    {
        let w = &words[i];
        proof {
            assert(words@.map_values(|w2: String| w2@)[i as int] == words@[i as int]@);
            assert(w@ == ws[i as int]);
        }
        let current_len = current.as_str().unicode_len();
        let w_len = w.as_str().unicode_len();
        if current_len == 0 {
            current = w.clone();
            proof {
                j = i as int;
                lemma_split_single_word(w@);
                assert(ws.subrange(i as int, i + 1) =~= seq![ws[i as int]]);
            }
        } else if current_len < width && w_len <= width - current_len - 1 {
            let ghost before = current@;
            push_char(&mut current, ' ');
            current.append(w.as_str());
            assert(current@.len() <= width);
            proof {
                assert(current@ =~= before + (seq![' '] + w@));
                lemma_split_concat_space(before, w@);
                lemma_split_single_word(w@);
                assert(spec_split_words(w@) =~= seq![ws[i as int]]);
                assert(spec_split_words(current@) =~= ws.subrange(j, i as int) + seq![
                    ws[i as int],
                ]);
                assert(ws.subrange(j, i as int) + seq![ws[i as int]] =~= ws.subrange(j, i + 1));
            }
        } else {
            let ghost cur_view = current@;
            let ghost old_lines = lines@.map_values(|l: String| l@);
            push_line(&mut lines, current);
            current = w.clone();
            proof {
                lemma_words_concat_snoc(old_lines, cur_view);
                assert(ws.subrange(0, j) + ws.subrange(j, i as int) =~= ws.subrange(0, i as int));
                j = i as int;
                lemma_split_single_word(w@);
                assert(ws.subrange(i as int, i + 1) =~= seq![ws[i as int]]);
            }
        }
        i = i + 1;
    }
    if current.as_str().unicode_len() > 0 {
        let ghost cur_view = current@;
        let ghost old_lines = lines@.map_values(|l: String| l@);
        push_line(&mut lines, current);
        proof {
            lemma_words_concat_snoc(old_lines, cur_view);
            assert(ws.subrange(0, j) + ws.subrange(j, n as int) =~= ws.subrange(0, n as int));
            assert(ws.subrange(0, n as int) =~= ws);
        }
    } else {
        proof {
            assert(j == n as int);
            assert(ws.subrange(0, n as int) =~= ws);
        }
    }
    if lines.len() == 0 {
        let ghost old_lines = lines@.map_values(|l: String| l@);
        push_line(&mut lines, String::new());
        proof {
            lemma_words_concat_snoc(old_lines, Seq::<char>::empty());
            assert(spec_split_words(Seq::<char>::empty()) =~= Seq::<Seq<char>>::empty());
        }
    }
    lines
}


/// The text with leading whitespace dropped.
pub open spec fn spec_trim_front(s: Seq<char>) -> Seq<char>
    decreases s.len(),
{
    if s.len() > 0 && spec_is_space(s[0]) {
        spec_trim_front(s.skip(1))
    } else {
        s
    }
}

/// The text with trailing whitespace dropped.
pub open spec fn spec_trim_back(s: Seq<char>) -> Seq<char>
    decreases s.len(),
{
    if s.len() > 0 && spec_is_space(s.last()) {
        spec_trim_back(s.drop_last())
    } else {
        s
    }
}

/// The text with whitespace dropped from both ends.
pub open spec fn spec_trim(s: Seq<char>) -> Seq<char> {
    spec_trim_back(spec_trim_front(s))
}

proof fn lemma_trim_front_skip(s: Seq<char>, i: int)
    requires
        0 <= i <= s.len(),
        forall|j: int| 0 <= j < i ==> spec_is_space(#[trigger] s[j]),
        i < s.len() ==> !spec_is_space(s[i]),
    ensures
        spec_trim_front(s) == s.skip(i),
    decreases i,
{
    if i > 0 {
        assert(spec_is_space(s[0]));
        assert(spec_trim_front(s) == spec_trim_front(s.skip(1)));
        assert(forall|j: int| 0 <= j < i - 1 ==> spec_is_space(#[trigger] s.skip(1)[j]));
        lemma_trim_front_skip(s.skip(1), i - 1);
        assert(s.skip(1).skip(i - 1) =~= s.skip(i));
    } else {
        assert(s.skip(0) =~= s);
    }
}

proof fn lemma_trim_back_take(s: Seq<char>, k: int)
    requires
        0 <= k <= s.len(),
        forall|j: int| k <= j < s.len() ==> spec_is_space(#[trigger] s[j]),
        k > 0 ==> !spec_is_space(s[k - 1]),
    ensures
        spec_trim_back(s) == s.take(k),
    decreases s.len() - k,
{
    if k < s.len() {
        assert(spec_is_space(s.last()));
        assert(spec_trim_back(s) == spec_trim_back(s.drop_last()));
        assert(s.drop_last() =~= s.take(s.len() - 1));
        assert(forall|j: int| k <= j < s.drop_last().len() ==> spec_is_space(#[trigger] s.drop_last()[j]));
        lemma_trim_back_take(s.drop_last(), k);
        assert(s.drop_last().take(k) =~= s.take(k));
    } else {
        assert(s.take(s.len() as int) =~= s);
    }
}

/// Drops whitespace from both ends of the text.
pub fn trim(s: &str) -> (r: String)
    ensures
        r@ == spec_trim(s@),
{
    let cs = chars_of(s);
    let n = cs.len();
    let mut i0: usize = 0;
    while i0 < n && (cs[i0] == ' ' || cs[i0] == '\t' || cs[i0] == '\n' || cs[i0] == '\r')
        invariant
            0 <= i0 <= n,
            n == cs@.len(),
            cs@ == s@,
            forall|j: int| 0 <= j < i0 ==> spec_is_space(#[trigger] s@[j]),
        decreases n - i0,
    {
        i0 = i0 + 1;
    }
    proof {
        lemma_trim_front_skip(s@, i0 as int);
    }
    let ghost front = s@.skip(i0 as int);
    let mut i1: usize = n;
    while i1 > i0 && (cs[i1 - 1] == ' ' || cs[i1 - 1] == '\t' || cs[i1 - 1] == '\n' || cs[i1 - 1]
        == '\r')
        invariant
            i0 <= i1 <= n,
            n == cs@.len(),
            cs@ == s@,
            forall|j: int| i1 <= j < n ==> spec_is_space(#[trigger] s@[j]),
        decreases i1,
    {
        i1 = i1 - 1;
    }
    proof {
        assert(forall|j: int|
            i1 - i0 <= j < front.len() ==> spec_is_space(#[trigger] front[j]));
        if i1 > i0 {
            assert(!spec_is_space(front[i1 - i0 - 1]));
        }
        lemma_trim_back_take(front, i1 - i0);
    }
    let mut out: Vec<char> = Vec::new();
    let mut k: usize = i0;
    while k < i1
        invariant
            i0 <= k <= i1 <= n,
            n == cs@.len(),
            cs@ == s@,
            out@ =~= s@.subrange(i0 as int, k as int),
        decreases i1 - k,
    {
        out.push(cs[k]);
        k = k + 1;
    }
    proof {
        assert(out@ =~= front.take(i1 - i0));
    }
    string_from_chars(&out)
}

/// Lexicographic order on character sequences, by code point.
pub open spec fn lex_le(a: Seq<char>, b: Seq<char>) -> bool
    decreases a.len(),
{
    if a.len() == 0 {
        true
    } else if b.len() == 0 {
        false
    } else if (a[0] as u32) < (b[0] as u32) {
        true
    } else if (a[0] as u32) == (b[0] as u32) {
        lex_le(a.skip(1), b.skip(1))
    } else {
        false
    }
}

/// Lexicographic order is total.
pub proof fn lemma_lex_total(a: Seq<char>, b: Seq<char>)
    ensures
        lex_le(a, b) || lex_le(b, a),
    decreases a.len(),
{
    if a.len() > 0 && b.len() > 0 && (a[0] as u32) == (b[0] as u32) {
        lemma_lex_total(a.skip(1), b.skip(1));
    }
}

/// Lexicographic order is transitive.
pub proof fn lemma_lex_trans(a: Seq<char>, b: Seq<char>, c: Seq<char>)
    requires
        lex_le(a, b),
        lex_le(b, c),
    ensures
        lex_le(a, c),
    decreases a.len(),
{
    if a.len() > 0 && b.len() > 0 && c.len() > 0 {
        if (a[0] as u32) == (b[0] as u32) && (b[0] as u32) == (c[0] as u32) {
            lemma_lex_trans(a.skip(1), b.skip(1), c.skip(1));
        }
    }
}

/// Compares two strings lexicographically by code point.
pub fn str_le(a: &str, b: &str) -> (r: bool)
    ensures
        r == lex_le(a@, b@),
    decreases a@.len(),
{
    let n = a.unicode_len();
    let m = b.unicode_len();
    if n == 0 {
        true
    } else if m == 0 {
        false
    } else {
        let ca = a.get_char(0);
        let cb = b.get_char(0);
        if (ca as u32) < (cb as u32) {
            true
        } else if (ca as u32) == (cb as u32) {
            let ra = a.substring_char(1, n);
            let rb = b.substring_char(1, m);
            assert(ra@ =~= a@.skip(1));
            assert(rb@ =~= b@.skip(1));
            str_le(ra, rb)
        } else {
            false
        }
    }
}

/// The parts joined with `sep` between each pair.
pub open spec fn spec_join(parts: Seq<Seq<char>>, sep: Seq<char>) -> Seq<char>
    decreases parts.len(),
{
    if parts.len() == 0 {
        Seq::empty()
    } else if parts.len() == 1 {
        parts[0]
    } else {
        parts[0] + sep + spec_join(parts.skip(1), sep)
    }
}

/// Joining one more part appends a separator and the part (or is the part
/// itself when nothing was there).
pub proof fn lemma_join_snoc(parts: Seq<Seq<char>>, sep: Seq<char>, x: Seq<char>)
    ensures
        spec_join(parts.push(x), sep) == if parts.len() == 0 {
            x
        } else {
            spec_join(parts, sep) + sep + x
        },
    decreases parts.len(),
{
    if parts.len() == 0 {
        assert(parts.push(x).len() == 1);
        assert(parts.push(x)[0] == x);
    } else {
        assert(parts.push(x).skip(1) =~= parts.skip(1).push(x));
        lemma_join_snoc(parts.skip(1), sep, x);
        if parts.len() == 1 {
            assert(spec_join(parts.push(x), sep) =~= spec_join(parts, sep) + sep + x);
        } else {
            assert(spec_join(parts.push(x), sep) =~= spec_join(parts, sep) + sep + x);
        }
    }
}

/// Joins `parts` with `sep` between each pair.
pub fn join_with(parts: &Vec<String>, sep: &str) -> (r: String)
    ensures
        r@ == spec_join(parts@.map_values(|s: String| s@), sep@),
{
    let ghost views = parts@.map_values(|s: String| s@);
    let mut out = String::new();
    let mut i: usize = 0;
    assert(views.subrange(0, 0) =~= Seq::<Seq<char>>::empty());
    while i < parts.len()
        invariant
            0 <= i <= parts@.len(),
            views == parts@.map_values(|s: String| s@),
            out@ == spec_join(views.subrange(0, i as int), sep@),
        decreases parts@.len() - i,
    {
        let ghost pfx = views.subrange(0, i as int);
        if i > 0 {
            out.append(sep);
        }
        out.append(parts[i].as_str());
        proof {
            lemma_join_snoc(pfx, sep@, views[i as int]);
            assert(views.subrange(0, i + 1) =~= pfx.push(views[i as int]));
        }
        i = i + 1;
    }
    assert(views.subrange(0, views.len() as int) =~= views);
    out
}

/// True when `c` is a decimal digit.
pub open spec fn spec_is_digit(c: char) -> bool {
    48 <= c as u32 <= 57
}

/// The numeric value of a decimal digit character.
pub open spec fn spec_digit_val(c: char) -> int {
    c as u32 - 48
}

/// True when `s` is entirely decimal digits.
pub open spec fn spec_all_digits(s: Seq<char>) -> bool {
    forall|i: int| 0 <= i < s.len() ==> spec_is_digit(#[trigger] s[i])
}

/// The value of a digit string read in base ten.
pub open spec fn spec_digits_val(s: Seq<char>) -> int
    decreases s.len(),
{
    if s.len() == 0 {
        0
    } else {
        spec_digits_val(s.drop_last()) * 10 + spec_digit_val(s.last())
    }
}

proof fn lemma_digits_val_nonneg(s: Seq<char>)
    requires
        spec_all_digits(s),
    ensures
        spec_digits_val(s) >= 0,
    decreases s.len(),
{
    if s.len() > 0 {
        assert(spec_all_digits(s.drop_last()));
        lemma_digits_val_nonneg(s.drop_last());
    }
}

proof fn lemma_digits_val_extend(s: Seq<char>, i: int, j: int)
    requires
        spec_all_digits(s),
        0 <= i <= j <= s.len(),
    ensures
        spec_digits_val(s.subrange(0, i)) <= spec_digits_val(s.subrange(0, j)),
    decreases j - i,
{
    if i < j {
        let p = s.subrange(0, j - 1);
        let q = s.subrange(0, j);
        assert(q.drop_last() =~= p);
        assert(spec_all_digits(p));
        lemma_digits_val_nonneg(p);
        assert(spec_digits_val(q) == spec_digits_val(p) * 10 + spec_digit_val(q.last()));
        assert(spec_digits_val(p) * 10 >= spec_digits_val(p));
        lemma_digits_val_extend(s, i, j - 1);
    }
}

/// What an unsigned decimal parse returns: the value of the digits when the
/// string is a non-empty run of digits whose value fits, `None` otherwise.
pub open spec fn spec_parse_u64(s: Seq<char>) -> Option<u64> {
    if s.len() >= 1 && spec_all_digits(s) && spec_digits_val(s) <= u64::MAX {
        Some(spec_digits_val(s) as u64)
    } else {
        None
    }
}

/// Parses a non-empty all-digit string into a `u64`; fails on empty input,
/// any non-digit, or overflow.
pub fn parse_u64(s: &str) -> (r: Option<u64>)
    ensures
        r == spec_parse_u64(s@),
{
    let n = s.unicode_len();
    if n == 0 {
        return None;
    }
    let mut acc: u64 = 0;
    let mut i: usize = 0;
    assert(s@.subrange(0, 0) =~= Seq::<char>::empty());
    while i < n
        invariant
            0 <= i <= n,
            n == s@.len(),
            spec_all_digits(s@.subrange(0, i as int)),
            acc as int == spec_digits_val(s@.subrange(0, i as int)),
        decreases n - i,
    {
        let c = s.get_char(i);
        let cv = c as u32;
        if cv < 48 || cv > 57 {
            assert(!spec_is_digit(s@[i as int]));
            return None;
        }
        let d: u64 = (cv - 48) as u64;
        let ghost pfx = s@.subrange(0, i as int);
        let ghost nxt = s@.subrange(0, i + 1);
        assert(nxt.drop_last() =~= pfx);
        assert(spec_digits_val(nxt) == spec_digits_val(pfx) * 10 + spec_digit_val(s@[i as int]));
        if acc > (u64::MAX - d) / 10 {
            proof {
                assert(spec_digits_val(nxt) > u64::MAX) by {
                    assert(acc as int >= (u64::MAX as int - d) / 10 + 1);
                    assert((acc as int) * 10 >= ((u64::MAX as int - d) / 10 + 1) * 10) by (nonlinear_arith)
                        requires
                            acc as int >= (u64::MAX as int - d) / 10 + 1,
                    ;
                    assert(((u64::MAX as int - d) / 10) * 10 + 10 > u64::MAX as int - d);
                }
                if spec_all_digits(s@) {
                    lemma_digits_val_extend(s@, i + 1, s@.len() as int);
                    assert(s@.subrange(0, s@.len() as int) =~= s@);
                }
            }
            return None;
        }
        proof {
            assert((acc as int) * 10 + d <= u64::MAX as int) by {
                assert(acc as int <= (u64::MAX as int - d) / 10);
                assert((acc as int) * 10 <= ((u64::MAX as int - d) / 10) * 10) by (nonlinear_arith)
                    requires
                        acc as int <= (u64::MAX as int - d) / 10,
                ;
                assert(((u64::MAX as int - d) / 10) * 10 <= u64::MAX as int - d);
            }
        }
        acc = acc * 10 + d;
        i = i + 1;
    }
    assert(s@.subrange(0, n as int) =~= s@);
    Some(acc)
}

/// What a signed decimal parse returns: an optional sign followed by a
/// non-empty digit run whose value fits in an `i64`.
pub open spec fn spec_parse_i64(s: Seq<char>) -> Option<i64> {
    if s.len() >= 1 && s[0] == '-' {
        let rest = s.skip(1);
        if rest.len() >= 1 && spec_all_digits(rest) && spec_digits_val(rest)
            <= 0x8000_0000_0000_0000 {
            Some((-spec_digits_val(rest)) as i64)
        } else {
            None
        }
    } else if s.len() >= 1 && s[0] == '+' {
        let rest = s.skip(1);
        if rest.len() >= 1 && spec_all_digits(rest) && spec_digits_val(rest) <= i64::MAX {
            Some(spec_digits_val(rest) as i64)
        } else {
            None
        }
    } else {
        if s.len() >= 1 && spec_all_digits(s) && spec_digits_val(s) <= i64::MAX {
            Some(spec_digits_val(s) as i64)
        } else {
            None
        }
    }
}

/// Parses a signed decimal integer; fails on empty input, stray characters,
/// or a value outside the `i64` range.
pub fn parse_i64(s: &str) -> (r: Option<i64>)
    ensures
        r == spec_parse_i64(s@),
{
    let n = s.unicode_len();
    if n == 0 {
        return None;
    }
    let first = s.get_char(0);
    if first == '-' {
        let rest = s.substring_char(1, n);
        assert(rest@ =~= s@.skip(1));
        match parse_u64(rest) {
            Some(v) => {
                proof {
                    lemma_digits_val_nonneg(rest@);
                }
                if v <= 0x7fff_ffff_ffff_ffffu64 {
                    Some(-(v as i64))
                } else if v == 0x8000_0000_0000_0000u64 {
                    Some(i64::MIN)
                } else {
                    None
                }
            },
            None => None,
        }
    } else if first == '+' {
        let rest = s.substring_char(1, n);
        assert(rest@ =~= s@.skip(1));
        match parse_u64(rest) {
            Some(v) => {
                proof {
                    lemma_digits_val_nonneg(rest@);
                }
                if v <= 0x7fff_ffff_ffff_ffffu64 {
                    Some(v as i64)
                } else {
                    None
                }
            },
            None => None,
        }
    } else {
        match parse_u64(s) {
            Some(v) => {
                proof {
                    lemma_digits_val_nonneg(s@);
                }
                if v <= 0x7fff_ffff_ffff_ffffu64 {
                    Some(v as i64)
                } else {
                    None
                }
            },
            None => None,
        }
    }
}

/// True when `needle` occurs as a contiguous run inside `hay`.
pub open spec fn spec_contains_seq(hay: Seq<char>, needle: Seq<char>) -> bool {
    exists|i: int|
        0 <= i && i + needle.len() <= hay.len() && #[trigger] hay.subrange(
            i,
            i + needle.len() as int,
        ) =~= needle
}

fn match_at(hay: &Vec<char>, needle: &Vec<char>, at: usize) -> (r: bool)
    requires
        at + needle@.len() <= hay@.len(),
    ensures
        r == (hay@.subrange(at as int, at + needle@.len() as int) =~= needle@),
{
    let hl = hay.len();
    let mut j: usize = 0;
    while j < needle.len()
        invariant
            0 <= j <= needle@.len(),
            at + needle@.len() <= hay@.len(),
            hl == hay@.len(),
            forall|k: int| 0 <= k < j ==> hay@[at + k] == needle@[k],
        decreases needle@.len() - j,
    {
        assert(at + j < hl);
        if hay[at + j] != needle[j] {
            assert(hay@.subrange(at as int, at + needle@.len() as int)[j as int] != needle@[j as int]);
            return false;
        }
        j = j + 1;
    }
    assert(hay@.subrange(at as int, at + needle@.len() as int) =~= needle@);
    true
}

/// Substring search: true exactly when `needle` occurs inside `hay`.
pub fn contains_str(hay: &str, needle: &str) -> (r: bool)
    ensures
        r == spec_contains_seq(hay@, needle@),
{
    let h = chars_of(hay);
    let n = chars_of(needle);
    if n.len() == 0 {
        assert(spec_contains_seq(hay@, needle@)) by {
            assert(hay@.subrange(0, 0 + needle@.len() as int) =~= needle@);
        }
        return true;
    }
    if n.len() > h.len() {
        return false;
    }
    let last = h.len() - n.len();
    let mut i: usize = 0;
    while i <= last
        invariant
            0 <= i <= last + 1,
            last == h@.len() - n@.len(),
            n@.len() >= 1,
            h@.len() <= usize::MAX,
            h@ == hay@,
            n@ == needle@,
            forall|k: int|
                0 <= k < i ==> !(#[trigger] hay@.subrange(k, k + needle@.len() as int)
                    =~= needle@),
        decreases last + 1 - i,
    {
        if match_at(&h, &n, i) {
            return true;
        }
        i = i + 1;
    }
    false
}

} // verus!
