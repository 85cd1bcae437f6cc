use vstd::prelude::*;

verus! {

/// A string value of the scripting language.
#[derive(Clone, PartialEq, Eq, Debug, Hash, PartialOrd, Ord)]
pub struct JsString {
    value: String,
}

impl View for JsString {
    type V = Seq<char>;

    closed spec fn view(&self) -> Seq<char> {
        self.value@
    }
}

/// `x` is a suffix of `s`.
pub open spec fn ends_with(s: Seq<char>, x: Seq<char>) -> bool {
    x.len() <= s.len() && s.subrange(s.len() - x.len(), s.len() as int) == x
}

/// `x` occurs in `s` starting at `i`.
pub open spec fn occurs_at(s: Seq<char>, x: Seq<char>, i: int) -> bool {
    0 <= i && i + x.len() <= s.len() && s.subrange(i, i + x.len()) == x
}

pub open spec fn contains(s: Seq<char>, x: Seq<char>) -> bool {
    exists|i: int| occurs_at(s, x, i)
}

/// `s` with every occurrence of `from` replaced by `to`, scanning from the
/// left and never overlapping. An empty `from` matches before every
/// character and at the end.
pub open spec fn replaced(s: Seq<char>, from: Seq<char>, to: Seq<char>) -> Seq<char>
    decreases s.len(),
{
    if from.len() == 0 {
        if s.len() == 0 {
            to
        } else {
            to + seq![s[0]] + replaced(s.drop_first(), from, to)
        }
    } else if s.len() < from.len() {
        s
    } else if s.subrange(0, from.len() as int) == from {
        to + replaced(s.subrange(from.len() as int, s.len() as int), from, to)
    } else {
        seq![s[0]] + replaced(s.drop_first(), from, to)
    }
}

/// The strings one after another.
pub open spec fn joined(parts: Seq<JsString>) -> Seq<char>
    decreases parts.len(),
{
    if parts.len() == 0 {
        Seq::empty()
    } else {
        joined(parts.drop_last()) + parts.last()@
    }
}

/// Relies on `String::push`: the character is appended at the end.
#[verifier::external_body]
fn push_char(s: &mut String, c: char)
    ensures
        final(s)@ == old(s)@.push(c),
{
    s.push(c)
}

/// Relies on `char::from_u32`: a character exactly for the Unicode scalar
/// values, with that value.
#[verifier::external_body]
fn char_from_u32(v: u32) -> (r: Option<char>)
    ensures
        r is Some <==> is_scalar(v as int),
        r matches Some(c) ==> c as u32 == v,
{
    char::from_u32(v)
}

/// A Unicode scalar value: a code point that is not a surrogate.
pub open spec fn is_scalar(v: int) -> bool {
    0 <= v <= 0x10FFFF && !(0xD800 <= v <= 0xDFFF)
}

/// The characters of `s`, in order.
fn chars_of(s: &str) -> (r: Vec<char>)
    ensures
        r@ == s@,
{
    let n = s.unicode_len();
    let mut v: Vec<char> = Vec::new();
    let mut i: usize = 0;
    while i < n
        invariant
            n == s@.len(),
            i <= n,
            v@ == s@.subrange(0, i as int),
        decreases n - i,
    {
        v.push(s.get_char(i));
        i = i + 1;
        assert(v@ =~= s@.subrange(0, i as int));
    }
    assert(s@.subrange(0, n as int) =~= s@);
    v
}

/// Whether `x` occurs in `s` at `i`.
fn matches_at(s: &Vec<char>, x: &Vec<char>, i: usize) -> (r: bool)
    ensures
        r == occurs_at(s@, x@, i as int),
{
    if i > s.len() || x.len() > s.len() - i {
        return false;
    }
    let sl = s.len();
    let mut k: usize = 0;
    while k < x.len()
        invariant
            sl == s@.len(),
            i + x@.len() <= s@.len(),
            k <= x@.len(),
            forall|j: int| 0 <= j < k ==> s@[i + j] == x@[j],
        decreases x@.len() - k,
    {
        if s[i + k] != x[k] {
            assert(s@.subrange(i as int, i + x@.len())[k as int] != x@[k as int]);
            return false;
        }
        k = k + 1;
    }
    assert(s@.subrange(i as int, i + x@.len()) =~= x@);
    true
}

impl JsString {
    pub fn new(value: String) -> (r: Self)
        ensures
            r@ == value@,
    {
        JsString { value }
    }

    /// The characters as a `str`.
    pub fn as_str(&self) -> (r: &str)
        ensures
            r@ == self@,
    {
        self.value.as_str()
    }

    /// This string followed by each of `args`.
    pub fn concat(&self, args: &[JsString]) -> (r: Self)
        ensures
            r@ == self@ + joined(args@),
    {
        let mut value = self.value.clone();
        let mut i: usize = 0;
        while i < args.len()
            invariant
                i <= args@.len(),
                value@ == self@ + joined(args@.subrange(0, i as int)),
            decreases args@.len() - i,
        {
            proof {
                assert(args@.subrange(0, i + 1).drop_last() =~= args@.subrange(0, i as int));
            }
            value.append(args[i].value.as_str());
            i = i + 1;
        }
        assert(args@.subrange(0, args@.len() as int) =~= args@);
        JsString { value }
    }

    /// Whether the string ends with `search`.
    #[allow(non_snake_case)]
    pub fn endsWith(&self, search: &str) -> (r: bool)
        ensures
            r == ends_with(self@, search@),
    {
        let s = chars_of(self.value.as_str());
        let x = chars_of(search);
        if x.len() > s.len() {
            return false;
        }
        let r = matches_at(&s, &x, s.len() - x.len());
        assert(r == ends_with(self@, search@));
        r
    }

    /// Whether `search` occurs anywhere in the string.
    pub fn includes(&self, search: &str) -> (r: bool)
        ensures
            r == contains(self@, search@),
    {
        let s = chars_of(self.value.as_str());
        let x = chars_of(search);
        if x.len() > s.len() {
            assert(forall|i: int| !occurs_at(self@, search@, i));
            return false;
        }
        let last = s.len() - x.len();
        let mut i: usize = 0;
        loop
            invariant
                s@ == self@,
                x@ == search@,
                last == s@.len() - x@.len(),
                i <= last,
                forall|j: int| 0 <= j < i ==> !occurs_at(self@, search@, j),
            ensures
                forall|j: int| 0 <= j <= last ==> !occurs_at(self@, search@, j),
            decreases last - i,
        {
            if matches_at(&s, &x, i) {
                return true;
            }
            if i == last {
                break;
            }
            i = i + 1;
        }
        false
    }

    /// The string with every occurrence of `search` replaced by `replace`.
    pub fn replace(&self, search: &str, replace: &str) -> (r: Self)
        ensures
            r@ == replaced(self@, search@, replace@),
    {
        let src = self.value.as_str();
        let s = chars_of(src);
        let x = chars_of(search);
        let n = s.len();
        let m = x.len();
        let mut out = String::new();
        let mut i: usize = 0;
        assert(s@.subrange(0, n as int) =~= s@);
        assert(out@ + replaced(s@, x@, replace@) =~= replaced(s@, x@, replace@));
        while i < n
            invariant
                s@ == self@,
                src@ == self@,
                x@ == search@,
                n == s@.len(),
                m == x@.len(),
                i <= n,
                out@ + replaced(s@.subrange(i as int, n as int), x@, replace@) == replaced(s@, x@, replace@),
            decreases n - i,
        {
            let ghost rest = s@.subrange(i as int, n as int);
            if m == 0 {
                assert(rest.drop_first() =~= s@.subrange(i + 1, n as int));
                assert(src@.subrange(i as int, i + 1) =~= seq![rest[0]]);
                out.append(replace);
                out.append(src.substring_char(i, i + 1));
                i = i + 1;
                assert(out@ + replaced(s@.subrange(i as int, n as int), x@, replace@) =~= replaced(s@, x@, replace@));
            } else if m > n - i {
                assert(replaced(rest, x@, replace@) == rest);
                out.append(src.substring_char(i, n));
                i = n;
                assert(s@.subrange(n as int, n as int) =~= Seq::<char>::empty());
                assert(out@ + replaced(s@.subrange(i as int, n as int), x@, replace@) =~= replaced(s@, x@, replace@));
            } else if matches_at(&s, &x, i) {
                assert(rest.subrange(0, m as int) =~= s@.subrange(i as int, i + m));
                assert(rest.subrange(m as int, rest.len() as int) =~= s@.subrange(i + m, n as int));
                out.append(replace);
                i = i + m;
                assert(out@ + replaced(s@.subrange(i as int, n as int), x@, replace@) =~= replaced(s@, x@, replace@));
            } else {
                assert(rest.subrange(0, m as int) =~= s@.subrange(i as int, i + m));
                assert(rest.drop_first() =~= s@.subrange(i + 1, n as int));
                assert(src@.subrange(i as int, i + 1) =~= seq![rest[0]]);
                out.append(src.substring_char(i, i + 1));
                i = i + 1;
                assert(out@ + replaced(s@.subrange(i as int, n as int), x@, replace@) =~= replaced(s@, x@, replace@));
            }
        }
        if m == 0 {
            out.append(replace);
        }
        assert(s@.subrange(n as int, n as int) =~= Seq::<char>::empty());
        assert(s@.subrange(0, n as int) =~= s@);
        JsString { value: out }
    }

    /// The characters whose codes are `codes`, each byte read as the code
    /// point of the same value.
    #[allow(non_snake_case)]
    pub fn fromCharCode(codes: &[u8]) -> (r: Self)
        ensures
            r@.len() == codes@.len(),
            forall|i: int| 0 <= i < codes@.len() ==> r@[i] as u32 == codes@[i] as u32,
    {
        let mut value = String::new();
        let mut i: usize = 0;
        while i < codes.len()
            invariant
                i <= codes@.len(),
                value@.len() == i,
                forall|j: int| 0 <= j < i ==> value@[j] as u32 == codes@[j] as u32,
            decreases codes@.len() - i,
        {
            let c = codes[i] as char;
            push_char(&mut value, c);
            i = i + 1;
        }
        JsString { value }
    }

    /// The characters whose code points are `codes`; `None` when one of them
    /// is no Unicode scalar value.
    #[allow(non_snake_case)]
    pub fn fromCodePoint(codes: &[u32]) -> (r: Option<Self>)
        ensures
            r is Some <==> forall|i: int| 0 <= i < codes@.len() ==> is_scalar(#[trigger] codes@[i] as int),
            r matches Some(s) ==> s@.len() == codes@.len() && forall|i: int|
                0 <= i < codes@.len() ==> s@[i] as u32 == codes@[i],
    {
        let mut value = String::new();
        let mut i: usize = 0;
        while i < codes.len()
            invariant
                i <= codes@.len(),
                value@.len() == i,
                forall|j: int| 0 <= j < i ==> value@[j] as u32 == codes@[j],
                forall|j: int| 0 <= j < i ==> is_scalar(#[trigger] codes@[j] as int),
            decreases codes@.len() - i,
        {
            match char_from_u32(codes[i]) {
                Some(c) => push_char(&mut value, c),
                None => {
                    return None;
                },
            }
            i = i + 1;
        }
        Some(JsString { value })
    }

    /// The character at `index` as a string; `None` when `index` is negative
    /// or past the end.
    pub fn at(&self, index: i64) -> (r: Option<Self>)
        ensures
            r is Some <==> 0 <= index < self@.len(),
            r matches Some(c) ==> c@ == seq![self@[index as int]],
    {
        self.charAt(index)
    }

    /// The character at `index` as a string; `None` when `index` is negative
    /// or past the end.
    #[allow(non_snake_case)]
    pub fn charAt(&self, index: i64) -> (r: Option<Self>)
        ensures
            r is Some <==> 0 <= index < self@.len(),
            r matches Some(c) ==> c@ == seq![self@[index as int]],
    {
        let n = self.value.as_str().unicode_len();
        if index < 0 || index as u64 >= n as u64 {
            return None;
        }
        let i = index as usize;
        let mut value = String::new();
        value.append(self.value.as_str().substring_char(i, i + 1));
        assert(self@.subrange(i as int, i + 1) =~= seq![self@[i as int]]);
        Some(JsString { value })
    }

    /// The low eight bits of the code point at `index`.
    #[allow(non_snake_case)]
    pub fn charCodeAt(&self, index: i64) -> (r: Option<u8>)
        ensures
            r is Some <==> 0 <= index < self@.len(),
            r matches Some(b) ==> b as int == (self@[index as int] as u32) % 256,
    {
        let n = self.value.as_str().unicode_len();
        if index < 0 || index as u64 >= n as u64 {
            return None;
        }
        let c = self.value.as_str().get_char(index as usize);
        Some(((c as u32) % 256) as u8)
    }

    /// The code point at `index`.
    #[allow(non_snake_case)]
    pub fn codePointAt(&self, index: i64) -> (r: Option<u32>)
        ensures
            r is Some <==> 0 <= index < self@.len(),
            r matches Some(v) ==> v == self@[index as int] as u32,
    {
        let n = self.value.as_str().unicode_len();
        if index < 0 || index as u64 >= n as u64 {
            return None;
        }
        let c = self.value.as_str().get_char(index as usize);
        Some(c as u32)
    }

    /// The index, in characters, of the first occurrence of `search`.
    #[allow(non_snake_case)]
    pub fn indexOf(&self, search: &str) -> (r: Option<usize>)
        ensures
            r is Some <==> contains(self@, search@),
            r matches Some(i) ==> occurs_at(self@, search@, i as int) && forall|j: int|
                0 <= j < i ==> !occurs_at(self@, search@, j),
    {
        let s = chars_of(self.value.as_str());
        let x = chars_of(search);
        if x.len() > s.len() {
            assert(forall|i: int| !occurs_at(self@, search@, i));
            return None;
        }
        let last = s.len() - x.len();
        let mut i: usize = 0;
        loop
            invariant
                s@ == self@,
                x@ == search@,
                last == s@.len() - x@.len(),
                i <= last,
                forall|j: int| 0 <= j < i ==> !occurs_at(self@, search@, j),
            ensures
                forall|j: int| 0 <= j <= last ==> !occurs_at(self@, search@, j),
            decreases last - i,
        {
            if matches_at(&s, &x, i) {
                return Some(i);
            }
            if i == last {
                break;
            }
            i = i + 1;
        }
        None
    }

    /// The index, in characters, of the last occurrence of `search`.
    #[allow(non_snake_case)]
    pub fn lastIndexOf(&self, search: &str) -> (r: Option<usize>)
        ensures
            r is Some <==> contains(self@, search@),
            r matches Some(i) ==> occurs_at(self@, search@, i as int) && forall|j: int|
                i < j ==> !occurs_at(self@, search@, j),
    {
        let s = chars_of(self.value.as_str());
        let x = chars_of(search);
        if x.len() > s.len() {
            assert(forall|i: int| !occurs_at(self@, search@, i));
            return None;
        }
        let mut i: usize = s.len() - x.len();
        loop
            invariant
                s@ == self@,
                x@ == search@,
                i <= s@.len() - x@.len(),
                forall|j: int| i < j ==> !occurs_at(self@, search@, j),
            ensures
                forall|j: int| 0 <= j ==> !occurs_at(self@, search@, j),
            decreases i,
        {
            if matches_at(&s, &x, i) {
                return Some(i);
            }
            if i == 0 {
                break;
            }
            i = i - 1;
        }
        None
    }

    /// The same as `replace`: every occurrence is replaced.
    #[allow(non_snake_case)]
    pub fn replaceAll(&self, search: &str, replace: &str) -> (r: Self)
        ensures
            r@ == replaced(self@, search@, replace@),
    {
        self.replace(search, replace)
    }
}

} // verus!
