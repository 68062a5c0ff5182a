//! Text: decimal numbers, whitespace, word wrapping and the small string
//! helpers that the faces' texts are built with.
use slicestring::Slice;
use vstd::prelude::*;

verus! {

/// Calls `String::push`: the character is appended to the string.
#[verifier::external_body]
pub(crate) fn push_char(s: &mut String, c: char)
    ensures
        final(s)@ == old(s)@.push(c),
{
    s.push(c)
}

/// The decimal digit `d` (0 to 9) as a character.
pub open spec fn digit_char(d: int) -> char {
    (48 + d) as char
}

/// The decimal writing of `n`, without leading zeros.
pub open spec fn decimal(n: nat) -> Seq<char>
    decreases n,
{
    if n < 10 {
        seq![digit_char(n as int)]
    } else {
        decimal(n / 10).push(digit_char((n % 10) as int))
    }
}

/// Appends the decimal writing of `n` to `s`.
pub fn push_decimal(s: &mut String, n: u64)
    ensures
        final(s)@ == old(s)@ + decimal(n as nat),
    decreases n,
{
    if n >= 10 {
        push_decimal(s, n / 10);
    }
    let d = (n % 10) as u8;
    push_char(s, (48u8 + d) as char);
    proof {
        assert(decimal(n as nat) == if n < 10 { seq![digit_char(n as int)] } else { decimal((n / 10) as nat).push(digit_char((n % 10) as int)) });
    }
}

/// The decimal writing of `n`.
pub fn decimal_string(n: u64) -> (r: String)
    ensures
        r@ == decimal(n as nat),
{
    let mut s = String::new();
    push_decimal(&mut s, n);
    assert(s@ =~= decimal(n as nat));
    s
}

/// The letter `c` in lower case when it is an ASCII capital, else `c`.
pub open spec fn ascii_lower(c: char) -> char {
    if 'A' <= c <= 'Z' {
        ((c as int) + 32) as char
    } else {
        c
    }
}

pub open spec fn ascii_lower_seq(s: Seq<char>) -> Seq<char> {
    s.map_values(|c: char| ascii_lower(c))
}

/// What `str::to_lowercase` makes of a string.
pub uninterp spec fn lowercase_of(s: Seq<char>) -> Seq<char>;

/// Calls `str::to_lowercase`.  Its result is named `lowercase_of`; of an
/// ASCII string it is, as the documentation of Unicode lower case gives, the
/// string with every capital letter made small.  What it does to other
/// characters is not stated.
#[verifier::external_body]
pub(crate) fn to_lowercase(s: &str) -> (r: String)
    ensures
        r@ == lowercase_of(s@),
        vstd::utf8::is_ascii_chars(s@) ==> r@ == ascii_lower_seq(s@),
{
    s.to_lowercase()
}

/// Whether `char::is_whitespace` holds of `c`: the Unicode White_Space
/// property.
pub uninterp spec fn is_white_space(c: char) -> bool;

/// Calls `char::is_whitespace`.  Its result is named `is_white_space`; the
/// documentation shows that the space is white space.  Which other
/// characters are is not stated.
#[verifier::external_body]
pub(crate) fn char_is_whitespace(c: char) -> (r: bool)
    ensures
        r == is_white_space(c),
        c == ' ' ==> r,
{
    c.is_whitespace()
}

/// The length of `s` once its trailing white space is cut off.
pub open spec fn trimmed_len(s: Seq<char>) -> nat
    decreases s.len(),
{
    if s.len() == 0 {
        0
    } else if is_white_space(s.last()) {
        trimmed_len(s.drop_last())
    } else {
        s.len()
    }
}

/// `s` without its trailing white space, as `str::trim_end` gives it.
pub open spec fn trim_end_of(s: Seq<char>) -> Seq<char> {
    s.subrange(0, trimmed_len(s) as int)
}

proof fn lemma_trimmed_len_bound(s: Seq<char>)
    ensures
        trimmed_len(s) <= s.len(),
        trimmed_len(s) > 0 ==> !is_white_space(s[trimmed_len(s) - 1]),
        forall|i: int| trimmed_len(s) <= i < s.len() ==> is_white_space(#[trigger] s[i]),
    decreases s.len(),
{
    if s.len() > 0 && is_white_space(s.last()) {
        lemma_trimmed_len_bound(s.drop_last());
        assert forall|i: int| trimmed_len(s) <= i < s.len() implies is_white_space(#[trigger] s[i]) by {
            if i < s.len() - 1 {
                assert(s.drop_last()[i] == s[i]);
            }
        }
    }
}

proof fn lemma_trimmed_len_of_prefix(s: Seq<char>, k: int)
    requires
        0 <= k <= s.len(),
        forall|i: int| k <= i < s.len() ==> is_white_space(#[trigger] s[i]),
        k == 0 || !is_white_space(s[k - 1]),
    ensures
        trimmed_len(s) == k,
    decreases s.len(),
{
    if s.len() > k {
        assert(is_white_space(s[s.len() - 1]));
        lemma_trimmed_len_of_prefix(s.drop_last(), k);
    }
}

/// `s` without its trailing white space (`str::trim_end`).
pub fn trim_end(s: &str) -> (r: String)
    ensures
        r@ == trim_end_of(s@),
{
    let n = s.unicode_len();
    let mut k = n;
    loop
        invariant
            n == s@.len(),
            0 <= k <= n,
            forall|i: int| k <= i < n ==> is_white_space(#[trigger] s@[i]),
        ensures
            0 <= k <= n,
            forall|i: int| k <= i < n ==> is_white_space(#[trigger] s@[i]),
            k == 0 || !is_white_space(s@[k - 1]),
        decreases k,
    {
        if k == 0 {
            break;
        }
        let c = s.get_char(k - 1);
        if !char_is_whitespace(c) {
            break;
        }
        k = k - 1;
    }
    proof {
        lemma_trimmed_len_of_prefix(s@, k as int);
    }
    s.substring_char(0, k).to_owned()
}

/// Whether `s` is nothing but white space (`s.trim().is_empty()`).
pub fn is_blank(s: &str) -> (r: bool)
    ensures
        r == (trimmed_len(s@) == 0),
{
    let t = trim_end(s);
    proof {
        lemma_trimmed_len_bound(s@);
    }
    t.as_str().is_empty()
}

/// The words of `s` as `str::split_whitespace` finds them, together with
/// the word still being read after the first `k` characters.
pub open spec fn split_state(s: Seq<char>, k: int) -> (Seq<Seq<char>>, Seq<char>)
    decreases k,
{
    if k <= 0 {
        (Seq::empty(), Seq::empty())
    } else {
        let (words, cur) = split_state(s, k - 1);
        let c = s[k - 1];
        if is_white_space(c) {
            if cur.len() > 0 {
                (words.push(cur), Seq::empty())
            } else {
                (words, Seq::empty())
            }
        } else {
            (words, cur.push(c))
        }
    }
}

/// The words of `s`: its longest runs of characters that are not white
/// space, in order.
pub open spec fn words_of(s: Seq<char>) -> Seq<Seq<char>> {
    let (words, cur) = split_state(s, s.len() as int);
    if cur.len() > 0 {
        words.push(cur)
    } else {
        words
    }
}

/// The characters of `s` that are not white space, in order.
pub open spec fn non_white(s: Seq<char>) -> Seq<char>
    decreases s.len(),
{
    if s.len() == 0 {
        Seq::empty()
    } else if is_white_space(s.last()) {
        non_white(s.drop_last())
    } else {
        non_white(s.drop_last()).push(s.last())
    }
}

/// The words one after the other, with nothing between them.
pub open spec fn concat(ws: Seq<Seq<char>>) -> Seq<char>
    decreases ws.len(),
{
    if ws.len() == 0 {
        Seq::empty()
    } else {
        concat(ws.drop_last()) + ws.last()
    }
}

proof fn lemma_split_state_prefix(s: Seq<char>, t: Seq<char>, k: int)
    requires
        0 <= k <= s.len() <= t.len(),
        t.subrange(0, s.len() as int) == s,
    ensures
        split_state(t, k) == split_state(s, k),
    decreases k,
{
    if k > 0 {
        lemma_split_state_prefix(s, t, k - 1);
        assert(t[k - 1] == t.subrange(0, s.len() as int)[k - 1]);
    }
}

proof fn lemma_split_state_concat(p: Seq<char>, q: Seq<char>, k: int)
    requires
        0 <= k <= q.len(),
        split_state(p, p.len() as int).1.len() == 0,
    ensures
        split_state(p + q, p.len() + k) == (split_state(p, p.len() as int).0 + split_state(q, k).0, split_state(q, k).1),
    decreases k,
{
    if k == 0 {
        assert((p + q).subrange(0, p.len() as int) =~= p);
        lemma_split_state_prefix(p, p + q, p.len() as int);
        assert(split_state(p, p.len() as int).0 + Seq::<Seq<char>>::empty() =~= split_state(p, p.len() as int).0);
        assert(split_state(p, p.len() as int).1 =~= Seq::<char>::empty());
    } else {
        lemma_split_state_concat(p, q, k - 1);
        assert((p + q)[p.len() + k - 1] == q[k - 1]);
        let w = split_state(p, p.len() as int).0;
        let (wq, cq) = split_state(q, k - 1);
        assert((w + wq).push(cq) =~= w + wq.push(cq));
    }
}

proof fn lemma_split_state_run(s: Seq<char>, k: int)
    requires
        0 <= k <= s.len(),
        forall|i: int| 0 <= i < s.len() ==> !is_white_space(#[trigger] s[i]),
    ensures
        split_state(s, k) == (Seq::<Seq<char>>::empty(), s.take(k)),
    decreases k,
{
    if k > 0 {
        lemma_split_state_run(s, k - 1);
        assert(s.take(k - 1).push(s[k - 1]) =~= s.take(k));
    } else {
        assert(s.take(0) =~= Seq::<char>::empty());
    }
}

proof fn lemma_split_state_keeps_characters(s: Seq<char>, k: int)
    requires
        0 <= k <= s.len(),
    ensures
        concat(split_state(s, k).0) + split_state(s, k).1 == non_white(s.take(k)),
        forall|i: int| 0 <= i < split_state(s, k).0.len() ==> is_word(#[trigger] split_state(s, k).0[i]),
        forall|j: int| 0 <= j < split_state(s, k).1.len() ==> !is_white_space(#[trigger] split_state(s, k).1[j]),
    decreases k,
{
    if k == 0 {
        assert(s.take(0) =~= Seq::<char>::empty());
        assert(concat(Seq::<Seq<char>>::empty()) + Seq::<char>::empty() =~= Seq::<char>::empty());
    } else {
        lemma_split_state_keeps_characters(s, k - 1);
        let (w, cur) = split_state(s, k - 1);
        let c = s[k - 1];
        assert(s.take(k).drop_last() =~= s.take(k - 1));
        assert(s.take(k).last() == c);
        if is_white_space(c) {
            if cur.len() > 0 {
                assert(w.push(cur).drop_last() =~= w);
                assert(concat(w.push(cur)) + Seq::<char>::empty() =~= concat(w) + cur);
                assert(is_word(cur));
            } else {
                assert(concat(w) + Seq::<char>::empty() =~= concat(w) + cur);
            }
        } else {
            assert(concat(w) + cur.push(c) =~= (concat(w) + cur).push(c));
        }
    }
}

/// Splitting a text into words keeps every character that is not white
/// space, in order, and only those: put back together, the words give the
/// text without its white space.  Every word is a word: not empty, and
/// without white space.
pub proof fn lemma_words_keep_the_text(s: Seq<char>)
    ensures
        concat(words_of(s)) == non_white(s),
        forall|i: int| 0 <= i < words_of(s).len() ==> is_word(#[trigger] words_of(s)[i]),
{
    let n = s.len() as int;
    lemma_split_state_keeps_characters(s, n);
    assert(s.take(n) =~= s);
    let (w, cur) = split_state(s, n);
    if cur.len() > 0 {
        assert(w.push(cur).drop_last() =~= w);
        assert(is_word(cur));
    } else {
        assert(concat(w) + cur =~= concat(w));
    }
}

/// A word ends only at white space: a run of characters none of which is
/// white space is a single word, whatever characters it holds.
pub proof fn lemma_run_is_one_word(s: Seq<char>)
    requires
        s.len() > 0,
        forall|i: int| 0 <= i < s.len() ==> !is_white_space(#[trigger] s[i]),
    ensures
        words_of(s) == seq![s],
{
    lemma_split_state_run(s, s.len() as int);
    assert(s.take(s.len() as int) =~= s);
    assert(Seq::<Seq<char>>::empty().push(s) =~= seq![s]);
}

/// White space separates words: the words of a text cut at a white-space
/// character are the words before it followed by the words after it.
pub proof fn lemma_white_space_separates_words(a: Seq<char>, c: char, b: Seq<char>)
    requires
        is_white_space(c),
    ensures
        words_of(a + seq![c] + b) == words_of(a) + words_of(b),
{
    let p = a + seq![c];
    assert(p.subrange(0, a.len() as int) =~= a);
    lemma_split_state_prefix(a, p, a.len() as int);
    assert(p[a.len() as int] == c);
    assert(split_state(p, p.len() as int).1.len() == 0);
    assert(split_state(p, p.len() as int).0 == words_of(a));
    lemma_split_state_concat(p, b, b.len() as int);
    let (wb, cb) = split_state(b, b.len() as int);
    assert(p + b == a + seq![c] + b);
    if cb.len() > 0 {
        assert((words_of(a) + wb).push(cb) =~= words_of(a) + wb.push(cb));
    }
}

/// The words of `text`, as `str::split_whitespace` gives them.
pub fn split_whitespace(text: &str) -> (words: Vec<String>)
    ensures
        words@.map_values(|w: String| w@) == words_of(text@),
        forall|i: int| 0 <= i < words@.len() ==> is_word(#[trigger] words@[i]@),
{
    let n = text.unicode_len();
    let mut words: Vec<String> = Vec::new();
    let mut cur = String::new();
    let mut k: usize = 0;
    while k < n
        invariant
            n == text@.len(),
            0 <= k <= n,
            words@.map_values(|w: String| w@) == split_state(text@, k as int).0,
            cur@ == split_state(text@, k as int).1,
            forall|i: int| 0 <= i < words@.len() ==> is_word(#[trigger] words@[i]@),
            forall|j: int| 0 <= j < cur@.len() ==> !is_white_space(#[trigger] cur@[j]),
        decreases n - k,
    {
        let c = text.get_char(k);
        let ghost before = words@.map_values(|w: String| w@);
        if char_is_whitespace(c) {
            if !cur.as_str().is_empty() {
                words.push(cur);
                assert(words@.map_values(|w: String| w@) =~= before.push(split_state(text@, k as int).1));
            }
            cur = String::new();
        } else {
            let ghost old_cur = cur@;
            push_char(&mut cur, c);
            assert(forall|j: int| 0 <= j < old_cur.len() ==> cur@[j] == old_cur[j]);
        }
        k = k + 1;
    }
    if !cur.as_str().is_empty() {
        let ghost before = words@.map_values(|w: String| w@);
        words.push(cur);
        assert(words@.map_values(|w: String| w@) =~= before.push(split_state(text@, n as int).1));
    }
    words
}

/// The greedy word wrapping of a text: words are added to the current line
/// while the line, measured with the word and a trailing space, is no wider
/// than the limit; otherwise the current line is closed (without its
/// trailing white space) and the word starts the next one.
pub struct LineWrapper {
    lines: Vec<String>,
    current_line: String,
}

/// The lines closed so far, and the current line as built (each word
/// followed by a space).
pub struct LineWrapperView {
    pub lines: Seq<Seq<char>>,
    pub current_line: Seq<char>,
}

impl View for LineWrapper {
    type V = LineWrapperView;

    closed spec fn view(&self) -> LineWrapperView {
        LineWrapperView { lines: self.lines@.map_values(|l: String| l@), current_line: self.current_line@ }
    }
}

/// What the wrapping makes of a word whose trial line measured `fits`.
pub open spec fn wrap_step(v: LineWrapperView, word: Seq<char>, fits: bool) -> LineWrapperView {
    if fits {
        LineWrapperView { lines: v.lines, current_line: v.current_line + word.push(' ') }
    } else {
        LineWrapperView { lines: v.lines.push(trim_end_of(v.current_line)), current_line: word.push(' ') }
    }
}

/// The lines of a finished wrapping: the current line is kept unless it is
/// blank.
pub open spec fn wrap_lines(v: LineWrapperView) -> Seq<Seq<char>> {
    if trimmed_len(v.current_line) > 0 {
        v.lines.push(trim_end_of(v.current_line))
    } else {
        v.lines
    }
}

impl LineWrapper {
    /// No line yet, and an empty current line.
    pub fn new() -> (w: LineWrapper)
        ensures
            w@.lines == Seq::<Seq<char>>::empty(),
            w@.current_line == Seq::<char>::empty(),
    {
        let w = LineWrapper { lines: Vec::new(), current_line: String::new() };
        assert(w@.lines =~= Seq::<Seq<char>>::empty());
        w
    }

    /// The line to measure before adding `word`: the current line, the word
    /// and a space.
    pub fn test_line(&self, word: &str) -> (t: String)
        ensures
            t@ == self@.current_line + word@.push(' '),
    {
        let mut t = self.current_line.clone();
        t.append(word);
        push_char(&mut t, ' ');
        assert(t@ =~= self@.current_line + word@.push(' '));
        t
    }

    /// Adds `word`, whose trial line measured `test_width` pixels, to a text
    /// wrapped at `max_width` pixels.
    pub fn push_word(&mut self, word: &str, test_width: u32, max_width: u32)
        ensures
            final(self)@ == wrap_step(old(self)@, word@, test_width <= max_width),
    {
        let test_line = self.test_line(word);
        if test_width <= max_width {
            self.current_line = test_line;
        } else {
            let ghost before = self@.lines;
            let line = trim_end(self.current_line.as_str());
            self.lines.push(line);
            assert(self@.lines =~= before.push(trim_end_of(old(self)@.current_line)));
            let mut next = String::new();
            next.append(word);
            push_char(&mut next, ' ');
            assert(next@ =~= word@.push(' '));
            self.current_line = next;
        }
    }

    /// The wrapped lines.
    pub fn finish(self) -> (lines: Vec<String>)
        ensures
            lines@.map_values(|l: String| l@) == wrap_lines(self@),
    {
        let mut lines = self.lines;
        if !is_blank(self.current_line.as_str()) {
            let ghost before = lines@.map_values(|l: String| l@);
            lines.push(trim_end(self.current_line.as_str()));
            assert(lines@.map_values(|l: String| l@) =~= before.push(trim_end_of(self@.current_line)));
        }
        lines
    }
}

/// The words, each followed by a space.
pub open spec fn spaced(ws: Seq<Seq<char>>) -> Seq<char>
    decreases ws.len(),
{
    if ws.len() == 0 {
        Seq::empty()
    } else {
        spaced(ws.drop_last()) + ws.last().push(' ')
    }
}

/// The words separated by single spaces.
pub open spec fn joined(ws: Seq<Seq<char>>) -> Seq<char> {
    if ws.len() == 0 {
        Seq::empty()
    } else {
        spaced(ws).drop_last()
    }
}

/// The words of a list of groups of words, in order.
pub open spec fn flatten(gs: Seq<Seq<Seq<char>>>) -> Seq<Seq<char>>
    decreases gs.len(),
{
    if gs.len() == 0 {
        Seq::empty()
    } else {
        flatten(gs.drop_last()) + gs.last()
    }
}

/// A word of the text: not empty, and without white space.
pub open spec fn is_word(w: Seq<char>) -> bool {
    w.len() > 0 && forall|j: int| 0 <= j < w.len() ==> !is_white_space(#[trigger] w[j])
}

/// The wrapping after the first `k` words, with `fits[i]` telling whether
/// the trial line of word `i` fitted.
pub open spec fn wrap_run(words: Seq<Seq<char>>, fits: Seq<bool>, k: int) -> LineWrapperView
    decreases k,
{
    if k <= 0 {
        LineWrapperView { lines: Seq::empty(), current_line: Seq::empty() }
    } else {
        wrap_step(wrap_run(words, fits, k - 1), words[k - 1], fits[k - 1])
    }
}

/// The words of each closed line, and of the current line, after the first
/// `k` words.
pub open spec fn wrap_groups(words: Seq<Seq<char>>, fits: Seq<bool>, k: int) -> (Seq<Seq<Seq<char>>>, Seq<Seq<char>>)
    decreases k,
{
    if k <= 0 {
        (Seq::empty(), Seq::empty())
    } else {
        let (gs, cur) = wrap_groups(words, fits, k - 1);
        if fits[k - 1] {
            (gs, cur.push(words[k - 1]))
        } else {
            (gs.push(cur), seq![words[k - 1]])
        }
    }
}

proof fn lemma_trim_spaced(cur: Seq<Seq<char>>)
    requires
        is_white_space(' '),
        forall|i: int| 0 <= i < cur.len() ==> is_word(#[trigger] cur[i]),
    ensures
        trim_end_of(spaced(cur)) == joined(cur),
        trimmed_len(spaced(cur)) > 0 <==> cur.len() > 0,
{
    if cur.len() > 0 {
        let s = spaced(cur);
        let w = cur.last();
        assert(is_word(w));
        assert(s =~= spaced(cur.drop_last()) + w.push(' '));
        assert(s.last() == ' ');
        assert(s.drop_last() =~= spaced(cur.drop_last()) + w);
        assert(s.drop_last().last() == w[w.len() - 1]);
        assert(!is_white_space(w[w.len() - 1]));
        assert(trimmed_len(s.drop_last()) == s.drop_last().len());
        assert(trimmed_len(s) == s.len() - 1);
        assert(trim_end_of(s) =~= s.drop_last());
    }
}

proof fn lemma_wrap_prefix(words: Seq<Seq<char>>, fits: Seq<bool>, k: int)
    requires
        is_white_space(' '),
        0 <= k <= words.len(),
        fits.len() == words.len(),
        forall|i: int| 0 <= i < words.len() ==> is_word(#[trigger] words[i]),
    ensures
        ({
            let v = wrap_run(words, fits, k);
            let (gs, cur) = wrap_groups(words, fits, k);
            &&& v.lines == gs.map_values(|g: Seq<Seq<char>>| joined(g))
            &&& v.current_line == spaced(cur)
            &&& flatten(gs) + cur == words.take(k)
            &&& forall|i: int| 0 <= i < cur.len() ==> is_word(#[trigger] cur[i])
        }),
    decreases k,
{
    if k > 0 {
        lemma_wrap_prefix(words, fits, k - 1);
        let v0 = wrap_run(words, fits, k - 1);
        let (gs0, cur0) = wrap_groups(words, fits, k - 1);
        let w = words[k - 1];
        assert(words.take(k) =~= words.take(k - 1).push(w));
        if fits[k - 1] {
            assert(spaced(cur0.push(w)) =~= spaced(cur0) + w.push(' ')) by {
                assert(cur0.push(w).drop_last() =~= cur0);
            }
            assert(flatten(gs0) + cur0.push(w) =~= (flatten(gs0) + cur0).push(w));
        } else {
            lemma_trim_spaced(cur0);
            assert(gs0.push(cur0).map_values(|g: Seq<Seq<char>>| joined(g)) =~= gs0.map_values(|g: Seq<Seq<char>>| joined(g)).push(joined(cur0)));
            assert(spaced(seq![w]) =~= w.push(' ')) by {
                assert(seq![w].drop_last() =~= Seq::<Seq<char>>::empty());
                assert(spaced(Seq::<Seq<char>>::empty()) =~= Seq::<char>::empty());
                assert(seq![w].last() == w);
            }
            assert(flatten(gs0.push(cur0)) =~= flatten(gs0) + cur0) by {
                assert(gs0.push(cur0).drop_last() =~= gs0);
            }
            assert(flatten(gs0.push(cur0)) + seq![w] =~= (flatten(gs0) + cur0).push(w));
        }
    } else {
        assert(words.take(0) =~= Seq::<Seq<char>>::empty());
        assert(Seq::<Seq<Seq<char>>>::empty().map_values(|g: Seq<Seq<char>>| joined(g)) =~= Seq::<Seq<char>>::empty());
    }
}

/// Word wrapping loses no word and changes none: whatever the widths
/// measured, the lines are groups of consecutive words of the text, in
/// order, separated by single spaces (a line is empty only when a word did
/// not fit on an empty line).  This holds because the space is white space,
/// as `char::is_whitespace` documents.
pub proof fn lemma_wrapping_keeps_words(words: Seq<Seq<char>>, fits: Seq<bool>)
    requires
        is_white_space(' '),
        fits.len() == words.len(),
        forall|i: int| 0 <= i < words.len() ==> is_word(#[trigger] words[i]),
    ensures
        ({
            let (gs, cur) = wrap_groups(words, fits, words.len() as int);
            let groups = if cur.len() > 0 { gs.push(cur) } else { gs };
            &&& wrap_lines(wrap_run(words, fits, words.len() as int)) == groups.map_values(|g: Seq<Seq<char>>| joined(g))
            &&& flatten(groups) == words
        }),
{
    let n = words.len() as int;
    lemma_wrap_prefix(words, fits, n);
    let (gs, cur) = wrap_groups(words, fits, n);
    lemma_trim_spaced(cur);
    assert(words.take(n) =~= words);
    if cur.len() > 0 {
        assert(gs.push(cur).map_values(|g: Seq<Seq<char>>| joined(g)) =~= gs.map_values(|g: Seq<Seq<char>>| joined(g)).push(joined(cur)));
        assert(flatten(gs.push(cur)) =~= flatten(gs) + cur) by {
            assert(gs.push(cur).drop_last() =~= gs);
        }
    } else {
        assert(flatten(gs) + cur =~= flatten(gs));
    }
}

/// The width in bytes of `c` written in UTF-8.
pub open spec fn utf8_width(c: char) -> int {
    if (c as int) < 0x80 {
        1
    } else if (c as int) < 0x800 {
        2
    } else if (c as int) < 0x10000 {
        3
    } else {
        4
    }
}

/// The characters of `s` whose first byte, counted from `offset` for the
/// first character, lies in `start..end`.
pub open spec fn chars_in_byte_range(s: Seq<char>, offset: int, start: int, end: int) -> Seq<char>
    decreases s.len(),
{
    if s.len() == 0 {
        Seq::empty()
    } else {
        let rest = chars_in_byte_range(s.drop_first(), offset + utf8_width(s[0]), start, end);
        if start <= offset && offset < end {
            seq![s[0]] + rest
        } else {
            rest
        }
    }
}

/// Calls `Slice::slice` of `slicestring` on the range `start..end`.  As its
/// source shows, the result keeps, in order, the characters whose byte
/// offset in `s` lies in the range; it never panics for ranges whose ends
/// fit in an `i32`.
#[verifier::external_body]
pub(crate) fn slice(s: &str, start: usize, end: usize) -> (r: String)
    requires
        start <= i32::MAX,
        end <= i32::MAX,
    ensures
        r@ == chars_in_byte_range(s@, 0, start as int, end as int),
{
    s.slice(start..end)
}

/// An optional sign and at least one ASCII digit.
pub open spec fn is_digits(d: Seq<char>) -> bool {
    d.len() > 0 && forall|i: int| 0 <= i < d.len() ==> '0' <= #[trigger] d[i] <= '9'
}

/// The number written by ASCII digits.
pub open spec fn digits_value(d: Seq<char>) -> int
    decreases d.len(),
{
    if d.len() == 0 {
        0
    } else {
        digits_value(d.drop_last()) * 10 + (d.last() as int - 48)
    }
}

/// `s` is read by `str::parse::<i32>`: an optional `+` or `-` followed by
/// ASCII digits, of a value that fits in an `i32`.
pub open spec fn parses_as_i32(s: Seq<char>) -> bool {
    if s.len() > 0 && (s[0] == '+' || s[0] == '-') {
        let d = s.drop_first();
        &&& is_digits(d)
        &&& if s[0] == '-' {
            -digits_value(d) >= i32::MIN
        } else {
            digits_value(d) <= i32::MAX
        }
    } else {
        is_digits(s) && digits_value(s) <= i32::MAX
    }
}

proof fn lemma_digits_value_prefix(d: Seq<char>, k: int)
    requires
        0 <= k <= d.len(),
        forall|i: int| 0 <= i < d.len() ==> '0' <= #[trigger] d[i] <= '9',
    ensures
        0 <= digits_value(d.subrange(0, k)) <= digits_value(d),
    decreases d.len() - k,
{
    if k < d.len() {
        lemma_digits_value_prefix(d, k + 1);
        let p = d.subrange(0, k + 1);
        assert(p.drop_last() =~= d.subrange(0, k));
        assert(p.last() == d[k]);
    } else {
        assert(d.subrange(0, k) =~= d);
        lemma_digits_value_nonneg(d);
    }
}

proof fn lemma_digits_value_nonneg(d: Seq<char>)
    requires
        forall|i: int| 0 <= i < d.len() ==> '0' <= #[trigger] d[i] <= '9',
    ensures
        0 <= digits_value(d),
    decreases d.len(),
{
    if d.len() > 0 {
        lemma_digits_value_nonneg(d.drop_last());
        assert(d.drop_last().len() < d.len());
        assert forall|i: int| 0 <= i < d.drop_last().len() implies '0' <= #[trigger] d.drop_last()[i] <= '9' by {
            assert(d.drop_last()[i] == d[i]);
        }
        lemma_digits_value_nonneg(d.drop_last());
    }
}

/// Whether `str::parse::<i32>` reads `s`: an optional `+` or `-`, then at
/// least one ASCII digit and nothing else, of a value within `i32`.
pub fn parses_i32(s: &str) -> (r: bool)
    ensures
        r == parses_as_i32(s@),
{
    let n = s.unicode_len();
    if n == 0 {
        return false;
    }
    let first = s.get_char(0);
    let signed = first == '+' || first == '-';
    let start: usize = if signed { 1 } else { 0 };
    if start == n {
        proof {
            assert(s@.drop_first().len() == 0);
        }
        return false;
    }
    let limit: i64 = if first == '-' { 2147483648 } else { 2147483647 };
    let ghost d = s@.subrange(start as int, n as int);
    proof {
        if signed {
            assert(d =~= s@.drop_first());
        } else {
            assert(d =~= s@);
        }
    }
    let mut value: i64 = 0;
    let mut k: usize = start;
    while k < n
        invariant
            n == s@.len(),
            start <= k <= n,
            d == s@.subrange(start as int, n as int),
            n > 0,
            first == s@[0],
            signed == (first == '+' || first == '-'),
            start == if signed { 1usize } else { 0usize },
            limit == if first == '-' { 2147483648i64 } else { 2147483647i64 },
            d == if signed { s@.drop_first() } else { s@ },
            0 <= value <= limit,
            limit <= 2147483648,
            value == digits_value(d.subrange(0, k - start)),
            forall|i: int| 0 <= i < k - start ==> '0' <= #[trigger] d[i] <= '9',
        decreases n - k,
    {
        let c = s.get_char(k);
        assert(c == d[k - start]);
        if !('0' <= c && c <= '9') {
            proof {
                assert(!is_digits(d));
            }
            return false;
        }
        let digit = (c as u32 - 48) as i64;
        proof {
            let p = d.subrange(0, k - start + 1);
            assert(p.drop_last() =~= d.subrange(0, k - start));
            assert(p.last() == c);
        }
        value = value * 10 + digit;
        k = k + 1;
        if value > limit {
            proof {
                if forall|i: int| 0 <= i < d.len() ==> '0' <= #[trigger] d[i] <= '9' {
                    lemma_digits_value_prefix(d, k - start);
                }
            }
            return false;
        }
    }
    proof {
        assert(d.subrange(0, n - start) =~= d);
    }
    true
}

/// Whether the string is exactly the given literal.
pub fn is_text(s: &String, lit: &str) -> (r: bool)
    ensures
        r == (s@ == lit@),
{
    let other = String::from_str(lit);
    *s == other
}

} // verus!
