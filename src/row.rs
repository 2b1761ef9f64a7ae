use vstd::prelude::*;
use vstd::utf8::*;

verus! {

/// One line of text. Every index addresses a character, never a byte.
pub struct Row {
    chars: Vec<char>,
}

impl View for Row {
    type V = Seq<char>;

    closed spec fn view(&self) -> Seq<char> {
        self.chars@
    }
}

/// The window `[start, end)` of `s`, with both ends clamped to its length.
pub open spec fn window(s: Seq<char>, start: int, end: int) -> Seq<char> {
    let lo = if start < s.len() { start } else { s.len() as int };
    let hi = if end < s.len() { end } else { s.len() as int };
    if lo < hi {
        s.subrange(lo, hi)
    } else {
        Seq::empty()
    }
}

/// `q` occurs in `s` starting at index `i`.
pub open spec fn occurs_at(s: Seq<char>, q: Seq<char>, i: int) -> bool {
    0 <= i && i + q.len() <= s.len() && s.subrange(i, i + q.len()) == q
}

/// The leftmost occurrence of `q` in `s` starts at index `i`.
pub open spec fn first_occurrence_at(s: Seq<char>, q: Seq<char>, i: int) -> bool {
    occurs_at(s, q, i) && forall|j: int| 0 <= j < i ==> !occurs_at(s, q, j)
}

/// `q` occurs nowhere in `s`.
pub open spec fn absent(s: Seq<char>, q: Seq<char>) -> bool {
    forall|i: int| !occurs_at(s, q, i)
}

/// Splitting a row at any index and appending the cut-off part back onto the
/// kept part gives back the row as it was.
pub proof fn lemma_split_then_append(s: Seq<char>, at: int)
    requires
        0 <= at <= s.len(),
    ensures
        s.subrange(0, at) + s.subrange(at, s.len() as int) == s,
{
    assert(s.subrange(0, at) + s.subrange(at, s.len() as int) =~= s);
}

/// The characters of a string slice, in order.
pub fn chars_of(s: &str) -> (r: Vec<char>)
    ensures
        r@ == s@,
{
    let n = s.unicode_len();
    let mut out: Vec<char> = Vec::new();
    let mut i: usize = 0;
    while i < n
        invariant
            n == s@.len(),
            i <= n,
            out@ == s@.subrange(0, i as int),
        decreases n - i,
    {
        out.push(s.get_char(i));
        i = i + 1;
        assert(out@ =~= s@.subrange(0, i as int));
    }
    assert(out@ =~= s@);
    out
}

/// The characters of `v` in `[start, end)`, clamped to its length.
pub fn window_chars(v: &Vec<char>, start: usize, end: usize) -> (r: Vec<char>)
    ensures
        r@ == window(v@, start as int, end as int),
{
    let len = v.len();
    let lo = if start < len { start } else { len };
    let hi = if end < len { end } else { len };
    let hi = if hi < lo { lo } else { hi };
    let mut out: Vec<char> = Vec::new();
    let mut i: usize = lo;
    while i < hi
        invariant
            lo <= len,
            hi <= len,
            len == v@.len(),
            lo <= i <= hi,
            out@ == v@.subrange(lo as int, i as int),
        decreases hi - i,
    {
        out.push(v[i]);
        i = i + 1;
        assert(out@ =~= v@.subrange(lo as int, i as int));
    }
    out
}

/// Whether `q` occurs in `s` at index `i`, for `i + q.len() <= s.len()`.
fn matches_at(s: &Vec<char>, q: &Vec<char>, i: usize) -> (r: bool)
    requires
        i + q@.len() <= s@.len(),
    ensures
        r == occurs_at(s@, q@, i as int),
{
    let n = s.len();
    let mut k: usize = 0;
    while k < q.len()
        invariant
            n == s@.len(),
            i + q@.len() <= s@.len(),
            k <= q@.len(),
            forall|m: int| 0 <= m < k ==> s@[i + m] == q@[m],
        decreases q@.len() - k,
    {
        if s[i + k] != q[k] {
            assert(s@.subrange(i as int, i + q@.len())[k as int] != q@[k as int]);
            return false;
        }
        k = k + 1;
    }
    assert(s@.subrange(i as int, i + q@.len()) =~= q@);
    true
}

/// Encodes one character as UTF-8, following the layout of `encode_scalar`.
fn push_utf8(out: &mut Vec<u8>, c: char)
    ensures
        final(out)@ == old(out)@ + encode_scalar(c as u32),
{
    let v = c as u32;
    proof {
        char_is_scalar(c);
    }
    if v <= 0x7F {
        out.push((v & 0x7F) as u8);
    } else if v <= 0x7FF {
        out.push(0xC0 | ((v >> 6) & 0x1F) as u8);
        out.push(0x80 | (v & 0x3F) as u8);
    } else if v <= 0xFFFF {
        out.push(0xE0 | ((v >> 12) & 0x0F) as u8);
        out.push(0x80 | ((v >> 6) & 0x3F) as u8);
        out.push(0x80 | (v & 0x3F) as u8);
    } else {
        out.push(0xF0 | ((v >> 18) & 0x7) as u8);
        out.push(0x80 | ((v >> 12) & 0x3F) as u8);
        out.push(0x80 | ((v >> 6) & 0x3F) as u8);
        out.push(0x80 | (v & 0x3F) as u8);
    }
    assert(final(out)@ == old(out)@ + encode_scalar(c as u32));
}

proof fn lemma_encode_push(s: Seq<char>, c: char)
    ensures
        encode_utf8(s.push(c)) == encode_utf8(s) + encode_scalar(c as u32),
    decreases s.len(),
{
    if s.len() == 0 {
        assert(s.push(c).drop_first() =~= Seq::<char>::empty());
        assert(encode_utf8(Seq::<char>::empty()) =~= Seq::<u8>::empty());
        assert(encode_utf8(s) =~= Seq::<u8>::empty());
        assert(encode_utf8(s.push(c)) =~= encode_scalar(c as u32) + Seq::<u8>::empty());
    } else {
        assert(s.push(c).drop_first() =~= s.drop_first().push(c));
        lemma_encode_push(s.drop_first(), c);
        assert(encode_utf8(s.push(c)) =~= encode_utf8(s) + encode_scalar(c as u32));
    }
}

/// Encoding a concatenation encodes each part in turn.
pub proof fn lemma_encode_concat(a: Seq<char>, b: Seq<char>)
    ensures
        encode_utf8(a + b) == encode_utf8(a) + encode_utf8(b),
    decreases a.len(),
{
    if a.len() == 0 {
        assert(a + b =~= b);
        assert(encode_utf8(a) =~= Seq::<u8>::empty());
        assert(encode_utf8(a) + encode_utf8(b) =~= encode_utf8(b));
    } else {
        assert((a + b).drop_first() =~= a.drop_first() + b);
        lemma_encode_concat(a.drop_first(), b);
        assert(encode_utf8(a + b) =~= encode_utf8(a) + encode_utf8(b));
    }
}

impl Row {
    pub fn from_chars(chars: Vec<char>) -> (r: Row)
        ensures
            r@ == chars@,
    {
        Row { chars }
    }

    pub fn from_text(s: &str) -> (r: Row)
        ensures
            r@ == s@,
    {
        Row { chars: chars_of(s) }
    }

    pub fn default() -> (r: Row)
        ensures
            r@ == Seq::<char>::empty(),
    {
        Row { chars: Vec::new() }
    }

    /// The characters in `[start, end)`, clamped to the row; empty where the
    /// window holds none.
    pub fn render(&self, start: usize, end: usize) -> (r: Vec<char>)
        ensures
            r@ == window(self@, start as int, end as int),
    {
        window_chars(&self.chars, start, end)
    }

    pub fn len(&self) -> (r: usize)
        ensures
            r == self@.len(),
    {
        self.chars.len()
    }

    /// Inserts `ch` before the character at index `at`.
    pub fn insert(&mut self, ch: char, at: usize)
        requires
            at <= old(self)@.len(),
        ensures
            final(self)@ == old(self)@.insert(at as int, ch),
    {
        self.chars.insert(at, ch);
    }

    /// Removes the character at index `at`; does nothing past the end.
    pub fn delete(&mut self, at: usize)
        ensures
            at < old(self)@.len() ==> final(self)@ == old(self)@.remove(at as int),
            at >= old(self)@.len() ==> final(self)@ == old(self)@,
    {
        if at < self.chars.len() {
            self.chars.remove(at);
        }
    }

    /// Adds the characters of `row` at the end of this one.
    pub fn append(&mut self, row: &Row)
        ensures
            final(self)@ == old(self)@ + row@,
    {
        let mut i: usize = 0;
        while i < row.chars.len()
            invariant
                i <= row.chars@.len(),
                self.chars@ == old(self).chars@ + row.chars@.subrange(0, i as int),
            decreases row.chars@.len() - i,
        {
            self.chars.push(row.chars[i]);
            i = i + 1;
            assert(self.chars@ =~= old(self).chars@ + row.chars@.subrange(0, i as int));
        }
        assert(row.chars@.subrange(0, i as int) =~= row.chars@);
    }

    /// Cuts the row at index `at`: this row keeps `[0, at)`, the returned row
    /// holds the rest.
    pub fn split(&mut self, at: usize) -> (r: Row)
        requires
            at <= old(self)@.len(),
        ensures
            final(self)@ == old(self)@.subrange(0, at as int),
            r@ == old(self)@.subrange(at as int, old(self)@.len() as int),
    {
        let rest = self.chars.split_off(at);
        Row { chars: rest }
    }

    /// The index of the leftmost occurrence of `query` in the row.
    pub fn find(&self, query: &Vec<char>) -> (r: Option<usize>)
        ensures
            match r {
                Some(i) => first_occurrence_at(self@, query@, i as int),
                None => absent(self@, query@),
            },
    {
        let n = self.chars.len();
        let m = query.len();
        if m > n {
            return None;
        }
        let mut i: usize = 0;
        loop
            invariant
                m <= n,
                n == self.chars@.len(),
                m == query@.len(),
                i <= n - m,
                forall|j: int| 0 <= j < i ==> !occurs_at(self.chars@, query@, j),
            decreases n - m - i,
        {
            if matches_at(&self.chars, query, i) {
                return Some(i);
            }
            if i == n - m {
                assert forall|j: int| !occurs_at(self.chars@, query@, j) by {
                    if 0 <= j && j + m <= n {
                        assert(j <= i);
                    }
                }
                return None;
            }
            i = i + 1;
        }
    }

    /// The UTF-8 encoding of the row.
    pub fn as_bytes(&self) -> (r: Vec<u8>)
        ensures
            r@ == encode_utf8(self@),
    {
        let mut out: Vec<u8> = Vec::new();
        let mut i: usize = 0;
        while i < self.chars.len()
            invariant
                i <= self.chars@.len(),
                out@ == encode_utf8(self.chars@.subrange(0, i as int)),
            decreases self.chars@.len() - i,
        {
            proof {
                lemma_encode_push(self.chars@.subrange(0, i as int), self.chars@[i as int]);
                assert(self.chars@.subrange(0, i as int).push(self.chars@[i as int])
                    =~= self.chars@.subrange(0, i + 1));
            }
            push_utf8(&mut out, self.chars[i]);
            i = i + 1;
        }
        assert(self.chars@.subrange(0, i as int) =~= self.chars@);
        out
    }
}

} // verus!
