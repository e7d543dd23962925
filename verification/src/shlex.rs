//! Shell-like splitting of a command string into words.
//!
//! A word runs until unquoted whitespace (space, tab or newline). A single- or
//! double-quoted region is skipped over as part of the word; after the word's
//! extent is found, quote characters are trimmed from both of its ends. An
//! unterminated quote stops the scan: the words found so far are kept.
//!
//! The exact behaviour is captured by [`spec_split`] and the spec functions it
//! is built from; [`split`] is proved to return exactly that.

use vstd::prelude::*;

verus! {

/// A character that separates words.
pub open spec fn is_word_sep(c: char) -> bool {
    c == ' ' || c == '\t' || c == '\n'
}

/// A quote character, in either of the two accepted styles.
pub open spec fn is_quote(c: char) -> bool {
    c == '\'' || c == '"'
}

/// Position just past the closing quote `q`, scanning from `i`; `None` if the
/// quote is never closed.
pub open spec fn spec_close_quote(s: Seq<char>, i: int, q: char) -> Option<int>
    decreases s.len() - i,
{
    if i >= s.len() {
        None
    } else if s[i] == q {
        Some(i + 1)
    } else {
        spec_close_quote(s, i + 1, q)
    }
}

proof fn lemma_close_quote_bounds(s: Seq<char>, i: int, q: char)
    ensures
        spec_close_quote(s, i, q) matches Some(k) ==> i + 1 <= k <= s.len(),
    decreases s.len() - i,
{
    if i < s.len() && s[i] != q {
        lemma_close_quote_bounds(s, i + 1, q);
    }
}

/// End of the word that starts at `j`: the index of the separator that stops
/// it (or the input's length if it runs to the end). `None` marks an
/// unterminated quote.
pub open spec fn spec_scan_word(s: Seq<char>, j: int) -> Option<int>
    decreases s.len() - j,
        via spec_scan_word_decreases
{
    if j >= s.len() {
        Some(j)
    } else if is_word_sep(s[j]) {
        Some(j)
    } else if is_quote(s[j]) {
        match spec_close_quote(s, j + 1, s[j]) {
            None => None,
            Some(k) => spec_scan_word(s, k),
        }
    } else {
        spec_scan_word(s, j + 1)
    }
}

#[via_fn]
proof fn spec_scan_word_decreases(s: Seq<char>, j: int) {
    if j < s.len() && !is_word_sep(s[j]) && is_quote(s[j]) {
        lemma_close_quote_bounds(s, j + 1, s[j]);
    }
}

proof fn lemma_scan_word_bounds(s: Seq<char>, j: int)
    requires
        j <= s.len(),
    ensures
        spec_scan_word(s, j) matches Some(end) ==> j <= end <= s.len(),
    decreases s.len() - j,
{
    if j < s.len() && !is_word_sep(s[j]) {
        if is_quote(s[j]) {
            lemma_close_quote_bounds(s, j + 1, s[j]);
            if let Some(k) = spec_close_quote(s, j + 1, s[j]) {
                lemma_scan_word_bounds(s, k);
            }
        } else {
            lemma_scan_word_bounds(s, j + 1);
        }
    }
}

/// The word with quote characters stripped from its start.
pub open spec fn spec_trim_quotes_front(w: Seq<char>) -> Seq<char>
    decreases w.len(),
{
    if w.len() > 0 && is_quote(w[0]) {
        spec_trim_quotes_front(w.drop_first())
    } else {
        w
    }
}

/// The word with quote characters stripped from its end.
pub open spec fn spec_trim_quotes_back(w: Seq<char>) -> Seq<char>
    decreases w.len(),
{
    if w.len() > 0 && is_quote(w[w.len() - 1]) {
        spec_trim_quotes_back(w.drop_last())
    } else {
        w
    }
}

/// The word with quote characters stripped from both ends.
pub open spec fn spec_trim_quotes(w: Seq<char>) -> Seq<char> {
    spec_trim_quotes_back(spec_trim_quotes_front(w))
}

/// The words of `s` from position `i` on: each word trimmed of quotes, the
/// sequence cut short at an unterminated quote.
pub open spec fn spec_words_from(s: Seq<char>, i: int) -> Seq<Seq<char>>
    decreases s.len() + 1 - i,
        via spec_words_from_decreases
{
    if i >= s.len() {
        Seq::empty()
    } else {
        match spec_scan_word(s, i) {
            None => Seq::empty(),
            Some(end) => seq![spec_trim_quotes(s.subrange(i, end))] + spec_words_from(
                s,
                end + 1,
            ),
        }
    }
}

#[via_fn]
proof fn spec_words_from_decreases(s: Seq<char>, i: int) {
    if i < s.len() {
        lemma_scan_word_bounds(s, i);
    }
}

/// What splitting a command string yields: `None` when no word is found.
pub open spec fn spec_split(s: Seq<char>) -> Option<Seq<Seq<char>>> {
    if spec_words_from(s, 0).len() == 0 {
        None
    } else {
        Some(spec_words_from(s, 0))
    }
}

/// The end position `spec_scan_word` found, as a plain integer (`-1` when the
/// scan failed on an unterminated quote).
pub open spec fn spec_scan_end(s: Seq<char>, i: int) -> int {
    match spec_scan_word(s, i) {
        Some(end) => end,
        None => -1,
    }
}

/// A scanner over a command string, handing out one word at a time.
pub struct Shlex<'a> {
    in_str: &'a str,
    offset: usize,
}

impl<'a> Shlex<'a> {
    /// The input being scanned.
    pub closed spec fn input(self) -> Seq<char> {
        self.in_str@
    }

    /// The position the next word starts at.
    pub closed spec fn pos(self) -> int {
        self.offset as int
    }

    /// The scanner's position never leaves the input.
    pub closed spec fn wf(self) -> bool {
        0 <= self.offset <= self.in_str@.len()
    }

    /// Starts a scan at the beginning of `in_str`.
    pub fn new(in_str: &'a str) -> (shl: Shlex<'a>)
        ensures
            shl.input() == in_str@,
            shl.pos() == 0,
            shl.wf(),
    {
        Shlex { in_str, offset: 0 }
    }

    /// Scans the next word. `Ok(None)` means the input is exhausted; `Err`
    /// marks an unterminated quote, which ends the scan.
    fn next_word(&mut self) -> (r: Result<Option<String>, ()>)
        requires
            old(self).wf(),
        ensures
            final(self).wf(),
            final(self).input() == old(self).input(),
            ({
                let s = old(self).input();
                let i = old(self).pos();
                if i >= s.len() {
                    r == Ok::<Option<String>, ()>(None) && final(self).pos() == i
                } else {
                    match spec_scan_word(s, i) {
                        None => r is Err,
                        Some(end) => {
                            &&& r matches Ok(w)
                            &&& w matches Some(word)
                            &&& word@ == spec_trim_quotes(s.subrange(i, end))
                            &&& final(self).pos() == if end + 1 <= s.len() {
                                end + 1
                            } else {
                                s.len() as int
                            }
                        },
                    }
                }
            }),
    {
        let ghost s = self.in_str@;
        let len = self.in_str.unicode_len();
        let start = self.offset;
        if start >= len {
            return Ok(None);
        }

        // Find the word's extent.
        let mut j = start;
        let mut end: usize = 0;
        loop
            invariant
                *self == *old(self),
                old(self).wf(),
                start as int == old(self).pos(),
                start <= j <= len,
                len == s.len(),
                s == self.in_str@,
                s == old(self).input(),
                spec_scan_word(s, start as int) == spec_scan_word(s, j as int),
            ensures
                *self == *old(self),
                start <= end <= len,
                len == s.len(),
                spec_scan_word(s, start as int) == Some(end as int),
            decreases len - j,
        {
            if j >= len {
                proof {
                    assert(spec_scan_word(s, j as int) == Some(j as int));
                }
                end = len;
                break;
            }
            let c = self.in_str.get_char(j);
            if c == ' ' || c == '\t' || c == '\n' {
                proof {
                    assert(spec_scan_word(s, j as int) == Some(j as int));
                }
                end = j;
                break;
            } else if c == '\'' || c == '"' {
                match Self::close_quote(self.in_str, j + 1, c) {
                    Some(k) => {
                        proof {
                            assert(spec_scan_word(s, j as int) == spec_scan_word(s, k as int));
                        }
                        j = k;
                    },
                    None => {
                        proof {
                            assert(spec_scan_word(s, j as int) is None);
                        }
                        return Err(());
                    },
                }
            } else {
                proof {
                    assert(spec_scan_word(s, j as int) == spec_scan_word(s, j + 1));
                }
                j = j + 1;
            }
        }

        let word = Self::trim_quotes(self.in_str.substring_char(start, end));
        if end >= len {
            self.offset = len;
        } else {
            self.offset = end + 1;
        }
        Ok(Some(word))
    }

    /// Position just past the closing quote `q`, scanning from `from`.
    fn close_quote(s: &str, from: usize, q: char) -> (r: Option<usize>)
        requires
            from <= s@.len(),
        ensures
            match r {
                Some(k) => spec_close_quote(s@, from as int, q) == Some(k as int) && from < k
                    <= s@.len(),
                None => spec_close_quote(s@, from as int, q) is None,
            },
    {
        let len = s.unicode_len();
        let mut i = from;
        while i < len
            invariant
                from <= i <= len == s@.len(),
                spec_close_quote(s@, from as int, q) == spec_close_quote(s@, i as int, q),
            decreases len - i,
        {
            if s.get_char(i) == q {
                return Some(i + 1);
            }
            i = i + 1;
        }
        None
    }

    /// Strips quote characters from both ends of a word.
    fn trim_quotes(w: &str) -> (r: String)
        ensures
            r@ == spec_trim_quotes(w@),
    {
        let len = w.unicode_len();
        proof {
            assert(w@.subrange(0, w@.len() as int) =~= w@);
        }
        let mut lo: usize = 0;
        loop
            invariant
                0 <= lo <= len == w@.len(),
                spec_trim_quotes_front(w@) == spec_trim_quotes_front(
                    w@.subrange(lo as int, len as int),
                ),
            ensures
                0 <= lo <= len == w@.len(),
                spec_trim_quotes_front(w@) == w@.subrange(lo as int, len as int),
            decreases len - lo,
        {
            if lo >= len {
                break;
            }
            let c = w.get_char(lo);
            if !(c == '\'' || c == '"') {
                break;
            }
            proof {
                let cur = w@.subrange(lo as int, len as int);
                assert(cur.drop_first() =~= w@.subrange(lo + 1, len as int));
            }
            lo = lo + 1;
        }

        let mut hi: usize = len;
        loop
            invariant
                0 <= lo <= hi <= len == w@.len(),
                spec_trim_quotes_front(w@) == w@.subrange(lo as int, len as int),
                spec_trim_quotes_back(w@.subrange(lo as int, len as int)) == spec_trim_quotes_back(
                    w@.subrange(lo as int, hi as int),
                ),
            ensures
                0 <= lo <= hi <= len == w@.len(),
                spec_trim_quotes(w@) == w@.subrange(lo as int, hi as int),
            decreases hi,
        {
            if hi <= lo {
                break;
            }
            let c = w.get_char(hi - 1);
            if !(c == '\'' || c == '"') {
                break;
            }
            proof {
                let cur = w@.subrange(lo as int, hi as int);
                assert(cur.drop_last() =~= w@.subrange(lo as int, hi - 1));
            }
            hi = hi - 1;
        }
        w.substring_char(lo, hi).to_owned()
    }
}

/// Splits a command string into words, honouring single- and double-quoted
/// regions; `None` when no word at all is found.
pub fn split(in_str: &str) -> (r: Option<Vec<String>>)
    ensures
        r.deep_view() == spec_split(in_str@),
{
    let ghost s = in_str@;
    let mut shl = Shlex::new(in_str);
    let mut res: Vec<String> = Vec::new();
    let ghost mut gi: int = 0;
    loop
        invariant_except_break
            shl.wf(),
            shl.input() == s,
            0 <= gi <= s.len() + 1,
            shl.pos() == if gi <= s.len() {
                gi
            } else {
                s.len() as int
            },
            res.deep_view() + spec_words_from(s, gi) =~= spec_words_from(s, 0),
        ensures
            res.deep_view() =~= spec_words_from(s, 0),
        decreases s.len() + 1 - gi,
    {
        let ghost old_res = res;
        let ghost i = gi;
        let ghost old_pos = shl.pos();
        match shl.next_word() {
            Ok(Some(word)) => {
                proof {
                    // A word can only come back while the scanner is
                    // mid-input, so its position equals `gi`.
                    assert(old_pos < s.len() && i == old_pos);
                    lemma_scan_word_bounds(s, i);
                }
                let ghost end = spec_scan_end(s, i);
                res.push(word);
                proof {
                    assert(res.deep_view() =~= old_res.deep_view().push(word@));
                    assert(spec_words_from(s, i) == seq![
                        spec_trim_quotes(s.subrange(i, end)),
                    ] + spec_words_from(s, end + 1));
                    gi = end + 1;
                }
            },
            Ok(None) => {
                proof {
                    // The input is exhausted, so no word is left.
                    assert(old_pos >= s.len() && gi >= s.len());
                    assert(spec_words_from(s, gi) =~= Seq::<Seq<char>>::empty());
                }
                break;
            },
            Err(_) => {
                proof {
                    // An unterminated quote ends the scan with what was found.
                    assert(old_pos < s.len() && i == old_pos);
                    assert(spec_scan_word(s, gi) is None);
                    assert(spec_words_from(s, gi) =~= Seq::<Seq<char>>::empty());
                }
                break;
            },
        }
    }
    if res.len() == 0 {
        proof {
            assert(spec_words_from(s, 0).len() == 0);
        }
        None
    } else {
        Some(res)
    }
}

} // verus!
