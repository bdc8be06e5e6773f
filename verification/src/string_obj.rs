//! Strings of the running program.
use core::cmp::Ordering;
use std::rc::Rc;
use std::str::Chars;
use vstd::prelude::*;
use vstd::utf8;

verus! {

/// Calls `Rc::clone`, which gives another owner of the same value.
#[verifier::external_body]
fn share(data: &Rc<String>) -> (shared: Rc<String>)
    ensures
        shared == *data,
{
    Rc::clone(data)
}

/// The remainder of a division that rounds towards zero. It has the sign of `a`.
pub open spec fn truncated_rem(a: int, b: int) -> int {
    if a >= 0 {
        a % b
    } else {
        -((-a) % b)
    }
}

/// Where a window ends that was asked to end at `end` in something of length `len`:
/// a negative `end` counts from one past the length.
pub open spec fn window_end(len: int, end: int) -> int {
    truncated_rem(len + 1 + end, len + 1)
}

/// Whether `end` names a place in something of length `len`, from the start or, if
/// negative, back from one past the length.
pub open spec fn names_end(len: int, end: int) -> bool {
    -(len + 1) <= end <= len
}

/// The place that `end` names.
pub open spec fn named_end(len: int, end: int) -> int {
    if end < 0 {
        len + 1 + end
    } else {
        end
    }
}

/// The end of a window, see [`window_end`]. An end far past the length must leave room
/// for counting.
pub fn window_end_index(len: usize, end: isize) -> (index: usize)
    requires
        end <= len || len + 1 + end <= isize::MAX,
    ensures
        index == window_end(len as int, end as int) as usize,
        names_end(len as int, end as int) ==> index == named_end(len as int, end as int),
{
    proof {
        if names_end(len as int, end as int) {
            law_where_windows_end(len as int, end as int);
        }
    }
    if end >= 0 {
        let e: usize = end as usize;
        if e <= len {
            e
        } else {
            proof {
                vstd::arithmetic::div_mod::lemma_mod_add_multiples_vanish(e as int, len + 1);
            }
            e % (len + 1)
        }
    } else {
        let back: usize = (-(end + 1)) as usize;
        if back <= len {
            len - back
        } else {
            let rest: usize = (back - len) % (len + 1);
            let result: isize = -(rest as isize);
            assert(result == window_end(len as int, end as int));
            result as usize
        }
    }
}

/// Whether `a` comes before `b` in the order of a dictionary.
pub open spec fn lex_less(a: Seq<u8>, b: Seq<u8>) -> bool {
    exists|i: int| #[trigger] differ_first_at(a, b, i) && (i == a.len() || (i < b.len() && a[i] < b[i]))
}

/// Whether `a` and `b` agree up to `i` and no further.
pub open spec fn differ_first_at(a: Seq<u8>, b: Seq<u8>, i: int) -> bool {
    &&& 0 <= i <= a.len()
    &&& i <= b.len()
    &&& a.take(i) == b.take(i)
    &&& i < a.len() || i < b.len()
    &&& i < a.len() && i < b.len() ==> a[i] != b[i]
}

/// How far two byte strings agree.
fn common_prefix(a: &[u8], b: &[u8]) -> (n: usize)
    ensures
        n <= a@.len(),
        n <= b@.len(),
        a@.take(n as int) == b@.take(n as int),
        n < a@.len() && n < b@.len() ==> a@[n as int] != b@[n as int],
        a@ != b@ ==> differ_first_at(a@, b@, n as int) && differ_first_at(b@, a@, n as int),
        n == a@.len() && n == b@.len() <==> a@ == b@,
{
    let mut n: usize = 0;
    while n < a.len() && n < b.len() && a[n] == b[n]
        invariant
            n <= a@.len(),
            n <= b@.len(),
            a@.take(n as int) == b@.take(n as int),
        decreases a@.len() - n,
    {
        assert(a@.take(n + 1) =~= a@.take(n as int).push(a@[n as int]));
        assert(b@.take(n + 1) =~= b@.take(n as int).push(b@[n as int]));
        n = n + 1;
    }
    assert(a@.take(a@.len() as int) =~= a@);
    assert(b@.take(b@.len() as int) =~= b@);
    n
}

/// Walks over the characters of a string.
pub type StringIter<'a> = Chars<'a>;

/// Walks over the characters of a string and counts them.
pub type StringEnumIter<'a> = core::iter::Enumerate<StringIter<'a>>;

/// An immutable string: a window into text that it may share with other strings.
#[derive(Debug)]
pub struct StringObj {
    data: Rc<String>,
    begin: usize,
    end: usize,
}

impl StringObj {
    /// The bytes of the text that the string is a window into.
    pub closed spec fn whole(self) -> Seq<u8> {
        utf8::encode_utf8(self.data@)
    }

    /// Where the window begins.
    pub closed spec fn lo(self) -> usize {
        self.begin
    }

    /// Where the window ends.
    pub closed spec fn hi(self) -> usize {
        self.end
    }

    /// The window lies in the text and cuts no character in two.
    pub open spec fn fits(self) -> bool {
        &&& self.lo() <= self.hi() <= self.whole().len()
        &&& utf8::is_char_boundary(self.whole(), self.lo() as int)
        &&& utf8::is_char_boundary(self.whole(), self.hi() as int)
    }

    /// The bytes of the string.
    pub open spec fn bytes(self) -> Seq<u8> {
        self.whole().subrange(self.lo() as int, self.hi() as int)
    }

    pub fn with_str(s: String) -> (obj: StringObj)
        ensures
            obj.fits(),
            obj.whole() == utf8::encode_utf8(s@),
            obj.lo() == 0,
            obj.hi() == utf8::encode_utf8(s@).len(),
            obj.bytes() == utf8::encode_utf8(s@),
    {
        let len: usize = s.as_str().as_bytes().len();
        let ghost text = s@;
        proof {
            utf8::encode_utf8_valid_utf8(text);
            utf8::is_char_boundary_start_end_of_seq(utf8::encode_utf8(text));
        }
        let obj = StringObj { data: Rc::new(s), begin: 0, end: len };
        assert(obj.bytes() =~= obj.whole());
        obj
    }

    pub fn as_str(&self) -> (s: &str)
        requires
            self.fits(),
        ensures
            utf8::encode_utf8(s@) == self.bytes(),
            s@ == utf8::decode_utf8(self.bytes()),
    {
        let ghost whole = self.whole();
        let text: &str = self.data.as_str();
        proof {
            utf8::encode_utf8_valid_utf8(self.data@);
            utf8::valid_utf8_split(whole, self.hi() as int);
            let head = whole.subrange(0, self.hi() as int);
            if self.lo() < self.hi() {
                utf8::is_char_boundary_iff_not_is_continuation_byte(whole, self.lo() as int);
                utf8::is_char_boundary_iff_not_is_continuation_byte(head, self.lo() as int);
            } else {
                utf8::is_char_boundary_start_end_of_seq(head);
            }
        }
        let head: &str = text.split_at(self.end).0;
        let s: &str = head.split_at(self.begin).1;
        proof {
            assert(utf8::encode_utf8(s@) =~= self.bytes());
            utf8::encode_utf8_decode_utf8(s@);
        }
        s
    }

    pub fn as_bytes(&self) -> (b: &[u8])
        requires
            self.fits(),
        ensures
            b@ == self.bytes(),
    {
        self.as_str().as_bytes()
    }

    pub fn len(&self) -> (len: usize)
        requires
            self.lo() <= self.hi(),
        ensures
            len == self.hi() - self.lo(),
    {
        self.end - self.begin
    }

    pub fn get_byte(&self, i: usize) -> (byte: Option<&u8>)
        requires
            self.fits(),
        ensures
            byte is Some <==> i < self.bytes().len(),
            byte is Some ==> *byte->0 == self.bytes()[i as int],
    {
        self.as_str().as_bytes().get(i)
    }

    /// The window from `begin` to `end` into the same text. A negative `end` counts
    /// from one past the length of this string, so that `-1` stands for all of it.
    /// Both are positions in the whole text, wherever this string begins.
    pub fn slice(&self, begin: isize, end: isize) -> (obj: StringObj)
        requires
            self.lo() <= self.hi(),
            end <= self.hi() - self.lo() || self.hi() - self.lo() + 1 + end <= isize::MAX,
        ensures
            obj.whole() == self.whole(),
            obj.lo() == begin as usize,
            obj.hi() == window_end(self.hi() - self.lo(), end as int) as usize,
            names_end(self.hi() - self.lo(), end as int) ==> obj.hi() == named_end(
                self.hi() - self.lo(),
                end as int,
            ),
    {
        let ei: usize = window_end_index(self.len(), end);
        StringObj { data: share(&self.data), begin: begin as usize, end: ei }
    }

    /// The characters of the string, from the first.
    pub fn iter(&self) -> (chars: StringIter<'_>)
        requires
            self.fits(),
        ensures
            vstd::std_specs::iter::IteratorSpec::remaining(&chars) == utf8::decode_utf8(
                self.bytes(),
            ),
    {
        self.as_str().chars()
    }

    /// Whether two strings read the same.
    pub fn eq(&self, other: &StringObj) -> (same: bool)
        requires
            self.fits(),
            other.fits(),
        ensures
            same == (self.bytes() == other.bytes()),
    {
        let a: &[u8] = self.as_bytes();
        let b: &[u8] = other.as_bytes();
        let n: usize = common_prefix(a, b);
        n == a.len() && n == b.len()
    }

    /// The order of two strings, byte by byte.
    pub fn cmp(&self, other: &StringObj) -> (order: Ordering)
        requires
            self.fits(),
            other.fits(),
        ensures
            order is Less <==> lex_less(self.bytes(), other.bytes()),
            order is Equal <==> self.bytes() == other.bytes(),
            order is Greater <==> lex_less(other.bytes(), self.bytes()),
    {
        let a: &[u8] = self.as_bytes();
        let b: &[u8] = other.as_bytes();
        let n: usize = common_prefix(a, b);
        proof {
            law_strings_are_ordered(a@, b@);
        }
        if n == a.len() {
            if n == b.len() {
                Ordering::Equal
            } else {
                Ordering::Less
            }
        } else if n == b.len() {
            Ordering::Greater
        } else if a[n] < b[n] {
            Ordering::Less
        } else {
            Ordering::Greater
        }
    }

    pub fn partial_cmp(&self, other: &StringObj) -> (order: Option<Ordering>)
        requires
            self.fits(),
            other.fits(),
        ensures
            order is Some,
            order->0 is Less <==> lex_less(self.bytes(), other.bytes()),
            order->0 is Equal <==> self.bytes() == other.bytes(),
            order->0 is Greater <==> lex_less(other.bytes(), self.bytes()),
    {
        Some(self.cmp(other))
    }
}

impl Clone for StringObj {
    fn clone(&self) -> (obj: Self)
        ensures
            obj == *self,
    {
        StringObj { data: share(&self.data), begin: self.begin, end: self.end }
    }
}

/// There is one place at which two byte strings first differ.
proof fn lemma_differ_first_once(a: Seq<u8>, b: Seq<u8>, i: int, j: int)
    requires
        differ_first_at(a, b, i),
        differ_first_at(a, b, j) || differ_first_at(b, a, j),
    ensures
        i == j,
{
    if i < j {
        assert(a.take(j)[i] == b.take(j)[i]);
    } else if j < i {
        assert(a.take(i)[j] == b.take(i)[j]);
    }
}

/// Two byte strings that are not equal first differ somewhere.
proof fn lemma_differ_somewhere(a: Seq<u8>, b: Seq<u8>, from: int) -> (i: int)
    requires
        a != b,
        0 <= from <= a.len(),
        from <= b.len(),
        a.take(from) == b.take(from),
    ensures
        differ_first_at(a, b, i),
        differ_first_at(b, a, i),
    decreases a.len() - from,
{
    if from < a.len() && from < b.len() && a[from] == b[from] {
        assert(a.take(from + 1) =~= a.take(from).push(a[from]));
        assert(b.take(from + 1) =~= b.take(from).push(b[from]));
        lemma_differ_somewhere(a, b, from + 1)
    } else {
        assert(a.take(a.len() as int) =~= a);
        assert(b.take(b.len() as int) =~= b);
        from
    }
}

/// Of two byte strings either they are equal or exactly one comes first.
pub proof fn law_strings_are_ordered(a: Seq<u8>, b: Seq<u8>)
    ensures
        a == b ==> !lex_less(a, b) && !lex_less(b, a),
        a != b ==> lex_less(a, b) != lex_less(b, a),
{
    if a != b {
        assert(a.take(0) =~= b.take(0));
        let i = lemma_differ_somewhere(a, b, 0);
        assert forall|j: int| #[trigger] differ_first_at(a, b, j) implies j == i by {
            lemma_differ_first_once(a, b, i, j);
        }
        assert forall|j: int| #[trigger] differ_first_at(b, a, j) implies j == i by {
            lemma_differ_first_once(a, b, i, j);
        }
    }
}

/// An end from zero to the length is taken as it is. A negative one counts back from one
/// past the length, so that `-1` stands for the length.
pub proof fn law_where_windows_end(len: int, end: int)
    requires
        0 <= len,
        names_end(len, end),
    ensures
        window_end(len, end) == named_end(len, end),
        0 <= named_end(len, end) <= len,
        named_end(len, -1) == len,
{
    if end < 0 {
        vstd::arithmetic::div_mod::lemma_small_mod((len + 1 + end) as nat, (len + 1) as nat);
    } else {
        vstd::arithmetic::div_mod::lemma_mod_add_multiples_vanish(end, len + 1);
        vstd::arithmetic::div_mod::lemma_small_mod(end as nat, (len + 1) as nat);
    }
}

/// A window into a string that begins where its text begins, cut from `begin` to the
/// place that `end` names, holds those bytes of the string. It is a string again if both
/// places lie between characters. All of the string is cut with `0` and either `-1` or
/// its length.
pub proof fn law_cutting_a_string(obj: StringObj, cut: StringObj, begin: isize, end: isize)
    requires
        obj.fits(),
        obj.lo() == 0,
        names_end(obj.bytes().len() as int, end as int),
        0 <= begin <= named_end(obj.bytes().len() as int, end as int),
        cut.whole() == obj.whole(),
        cut.lo() == begin as usize,
        cut.hi() == window_end(obj.hi() - obj.lo(), end as int) as usize,
    ensures
        ({
            let n = obj.bytes().len() as int;
            let e = named_end(n, end as int);
            &&& cut.bytes() == obj.bytes().subrange(begin as int, e)
            &&& cut.hi() - cut.lo() == e - begin
            &&& utf8::is_char_boundary(obj.whole(), begin as int) && utf8::is_char_boundary(
                obj.whole(),
                e,
            ) ==> cut.fits()
            &&& begin == 0 && (end == -1 || end == n) ==> cut.fits() && cut.bytes() == obj.bytes()
        }),
{
    law_where_windows_end(obj.hi() - obj.lo(), end as int);
    let e = named_end(obj.bytes().len() as int, end as int);
    assert(cut.bytes() =~= obj.bytes().subrange(begin as int, e));
    if begin == 0 && e == obj.bytes().len() {
        assert(cut.bytes() =~= obj.bytes());
    }
}

/// The bytes of a string are those of its text between its two ends.
pub proof fn law_the_bytes_of_a_string(obj: StringObj, i: int)
    requires
        obj.fits(),
        0 <= i < obj.hi() - obj.lo(),
    ensures
        obj.bytes().len() == obj.hi() - obj.lo(),
        obj.bytes()[i] == obj.whole()[obj.lo() + i],
{
}

/// Strings are ordered as in a dictionary: behind what they have in common, the one that ends
/// comes first, and else the one with the smaller byte.
pub proof fn law_where_strings_part(common: Seq<u8>, a: Seq<u8>, b: Seq<u8>)
    ensures
        a.len() == 0 && b.len() > 0 ==> lex_less(common + a, common + b),
        a.len() > 0 && b.len() > 0 && a[0] < b[0] ==> lex_less(common + a, common + b),
        a.len() > 0 && b.len() > 0 && a[0] > b[0] ==> lex_less(common + b, common + a),
        !lex_less(common, common),
{
    let n = common.len() as int;
    let x = common + a;
    let y = common + b;
    assert(x.take(n) =~= common);
    assert(y.take(n) =~= common);
    if a.len() == 0 && b.len() > 0 {
        assert(differ_first_at(x, y, n));
    }
    if a.len() > 0 && b.len() > 0 && a[0] != b[0] {
        assert(x[n] == a[0] && y[n] == b[0]);
        assert(differ_first_at(x, y, n));
        assert(differ_first_at(y, x, n));
    }
    law_strings_are_ordered(common, common);
}

/// An end past the length is counted round: it names the place that is left of it when the places
/// that there are have been taken off as often as it goes.
pub proof fn law_ends_past_the_length_go_round(len: int, end: int, rounds: int)
    requires
        0 <= len,
        0 <= rounds,
        0 <= end <= len,
    ensures
        window_end(len, end + rounds * (len + 1)) == end,
{
    let m = len + 1;
    assert(m + (end + rounds * m) == end + (rounds + 1) * m) by (nonlinear_arith)
        requires
            m == len + 1,
    ;
    assert(m + (end + rounds * m) >= 0) by (nonlinear_arith)
        requires
            m > 0,
            rounds >= 0,
            end >= 0,
    ;
    vstd::arithmetic::div_mod::lemma_mod_multiples_vanish(rounds + 1, end, m);
    vstd::arithmetic::div_mod::lemma_small_mod(end as nat, m as nat);
    vstd::arithmetic::mul::lemma_mul_is_commutative(rounds + 1, m);
}

/// The ends that name a place are those from zero to the length, and those below zero that count
/// back from one past the length.
pub proof fn law_which_ends_name_a_place(len: int, end: int)
    requires
        0 <= len,
    ensures
        0 <= end <= len ==> names_end(len, end) && named_end(len, end) == end,
        -(len + 1) <= end < 0 ==> names_end(len, end) && named_end(len, end) == len + 1 + end,
        end > len || end < -(len + 1) ==> !names_end(len, end),
{
}

} // verus!
