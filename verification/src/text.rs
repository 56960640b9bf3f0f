//! Character-level text model: whitespace, runs of characters, lines and
//! tokens, all stated over `Seq<char>`.

use vstd::prelude::*;

verus! {

/// Whether `c` counts as whitespace: exactly the code points that carry the
/// Unicode `White_Space` property.
pub open spec fn is_space(c: char) -> bool {
    let n = c as u32;
    ||| 0x09 <= n <= 0x0D
    ||| n == 0x20
    ||| n == 0x85
    ||| n == 0xA0
    ||| n == 0x1680
    ||| 0x2000 <= n <= 0x200A
    ||| n == 0x2028
    ||| n == 0x2029
    ||| n == 0x202F
    ||| n == 0x205F
    ||| n == 0x3000
}

/// Decides `is_space` for one character.
pub fn char_is_space(c: char) -> (r: bool)
    ensures
        r == is_space(c),
{
    let n: u32 = c as u32;
    (0x09 <= n && n <= 0x0D) || n == 0x20 || n == 0x85 || n == 0xA0 || n == 0x1680 || (0x2000 <= n
        && n <= 0x200A) || n == 0x2028 || n == 0x2029 || n == 0x202F || n == 0x205F || n == 0x3000
}

/// The three kinds of character run the parser scans for.
#[derive(Clone, Copy, Debug)]
pub enum CharClass {
    /// Whitespace characters.
    Space,
    /// Characters that are not whitespace.
    Word,
    /// Characters other than the line feed.
    LineBody,
}

impl CharClass {
    /// Whether `c` belongs to this class.
    pub open spec fn has(self, c: char) -> bool {
        match self {
            CharClass::Space => is_space(c),
            CharClass::Word => !is_space(c),
            CharClass::LineBody => c != '\n',
        }
    }

    /// Decides `has` for one character.
    pub fn contains(self, c: char) -> (r: bool)
        ensures
            r == self.has(c),
    {
        match self {
            CharClass::Space => char_is_space(c),
            CharClass::Word => !char_is_space(c),
            CharClass::LineBody => c != '\n',
        }
    }
}

/// Length of the longest prefix of `s` whose characters all belong to `class`.
pub open spec fn run_length(s: Seq<char>, class: CharClass) -> nat
    decreases s.len(),
{
    if s.len() > 0 && class.has(s[0]) {
        1 + run_length(s.drop_first(), class)
    } else {
        0
    }
}

/// A run is a prefix, every character of it is in the class, and the
/// character after it, if there is one, is not.
pub proof fn lemma_run_length_bounds(s: Seq<char>, class: CharClass)
    ensures
        run_length(s, class) <= s.len(),
        forall|i: int| 0 <= i < run_length(s, class) ==> class.has(#[trigger] s[i]),
        run_length(s, class) < s.len() ==> !class.has(s[run_length(s, class) as int]),
    decreases s.len(),
{
    if s.len() > 0 && class.has(s[0]) {
        let t = s.drop_first();
        lemma_run_length_bounds(t, class);
        assert forall|i: int| 0 <= i < run_length(s, class) implies class.has(#[trigger] s[i]) by {
            if i > 0 {
                assert(s[i] == t[i - 1]);
            }
        }
    }
}

/// The properties of `lemma_run_length_bounds` determine the run's length.
pub proof fn lemma_run_length_is(s: Seq<char>, class: CharClass, k: int)
    requires
        0 <= k <= s.len(),
        forall|i: int| 0 <= i < k ==> class.has(#[trigger] s[i]),
        k < s.len() ==> !class.has(s[k]),
    ensures
        run_length(s, class) == k,
    decreases s.len(),
{
    if k > 0 {
        let t = s.drop_first();
        assert forall|i: int| 0 <= i < k - 1 implies class.has(#[trigger] t[i]) by {
            assert(t[i] == s[i + 1]);
        }
        lemma_run_length_is(t, class, k - 1);
    }
}

/// End of the run of `class` characters that starts at index `from`.
pub fn run_end(s: &[char], from: usize, class: CharClass) -> (to: usize)
    requires
        from <= s@.len(),
    ensures
        to == from + run_length(s@.skip(from as int), class),
        from <= to <= s@.len(),
{
    let mut to: usize = from;
    while to < s.len() && class.contains(s[to])
        invariant
            from <= to <= s@.len(),
            forall|i: int| from <= i < to ==> class.has(#[trigger] s@[i]),
        decreases s@.len() - to,
    {
        to += 1;
    }
    proof {
        let rest = s@.skip(from as int);
        assert forall|i: int| 0 <= i < to - from implies class.has(#[trigger] rest[i]) by {
            assert(rest[i] == s@[from + i]);
        }
        lemma_run_length_is(rest, class, to - from);
    }
    to
}

/// What each row of `rows` holds.
pub open spec fn row_texts(rows: Seq<Vec<char>>) -> Seq<Seq<char>> {
    rows.map_values(|row: Vec<char>| row@)
}

/// The characters of `s`, in order.
pub fn chars_of(s: &str) -> (chars: Vec<char>)
    ensures
        chars@ == s@,
{
    let mut chars: Vec<char> = Vec::new();
    for c in it: s.chars()
        invariant
            chars@ == it.seq().take(it.index()),
    {
        chars.push(c);
    }
    chars
}

/// `String::push` of the standard library appends the character to the end
/// of the string and changes nothing else of it.
pub assume_specification[ String::push ](s: &mut String, c: char)
    ensures
        final(s)@ == old(s)@.push(c),
;

/// The string made of `chars`, in order.
pub fn string_of(chars: &[char]) -> (s: String)
    ensures
        s@ == chars@,
{
    let mut s = String::new();
    let mut i: usize = 0;
    while i < chars.len()
        invariant
            i <= chars@.len(),
            s@ == chars@.take(i as int),
        decreases chars@.len() - i,
    {
        s.push(chars[i]);
        i += 1;
    }
    s
}

} // verus!
