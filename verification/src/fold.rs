//! Case folding and character classification used by the tokenizer and the
//! parser. Tag and attribute names are stored lower-cased; the fold maps the
//! twenty-six ASCII capitals to their lower-case forms and leaves every other
//! character unchanged.

use vstd::prelude::*;

verus! {

/// The case fold applied to one character: an ASCII capital letter becomes
/// the corresponding lower-case letter, anything else is unchanged.
pub open spec fn lower_char(c: char) -> char {
    match c {
        'A' => 'a',
        'B' => 'b',
        'C' => 'c',
        'D' => 'd',
        'E' => 'e',
        'F' => 'f',
        'G' => 'g',
        'H' => 'h',
        'I' => 'i',
        'J' => 'j',
        'K' => 'k',
        'L' => 'l',
        'M' => 'm',
        'N' => 'n',
        'O' => 'o',
        'P' => 'p',
        'Q' => 'q',
        'R' => 'r',
        'S' => 's',
        'T' => 't',
        'U' => 'u',
        'V' => 'v',
        'W' => 'w',
        'X' => 'x',
        'Y' => 'y',
        'Z' => 'z',
        _ => c,
    }
}

/// The case fold applied to a whole character sequence.
pub open spec fn lower_seq(s: Seq<char>) -> Seq<char> {
    s.map_values(|c: char| lower_char(c))
}

/// Folding is idempotent on single characters.
pub proof fn lemma_lower_char_idempotent(c: char)
    ensures
        lower_char(lower_char(c)) == lower_char(c),
{
}

/// Folding is idempotent on sequences.
pub proof fn lemma_lower_seq_idempotent(s: Seq<char>)
    ensures
        lower_seq(lower_seq(s)) == lower_seq(s),
{
    assert(lower_seq(lower_seq(s)) =~= lower_seq(s)) by {
        assert forall|i: int| 0 <= i < s.len() implies lower_char(lower_char(s[i])) == lower_char(
            s[i],
        ) by {
            lemma_lower_char_idempotent(s[i]);
        }
    }
}

fn lower_char_exec(c: char) -> (r: char)
    ensures
        r == lower_char(c),
{
    match c {
        'A' => 'a',
        'B' => 'b',
        'C' => 'c',
        'D' => 'd',
        'E' => 'e',
        'F' => 'f',
        'G' => 'g',
        'H' => 'h',
        'I' => 'i',
        'J' => 'j',
        'K' => 'k',
        'L' => 'l',
        'M' => 'm',
        'N' => 'n',
        'O' => 'o',
        'P' => 'p',
        'Q' => 'q',
        'R' => 'r',
        'S' => 's',
        'T' => 't',
        'U' => 'u',
        'V' => 'v',
        'W' => 'w',
        'X' => 'x',
        'Y' => 'y',
        'Z' => 'z',
        _ => c,
    }
}

/// Relies on `String::push` from std: it appends exactly the given character
/// at the end of the string.
#[verifier::external_body]
fn push_char(s: &mut String, c: char)
    ensures
        final(s)@ == old(s)@.push(c),
{
    s.push(c);
}

/// Returns the case-folded copy of a string.
pub fn to_lower(s: &str) -> (r: String)
    ensures
        r@ == lower_seq(s@),
{
    let n = s.unicode_len();
    let mut r = String::new();
    let mut i: usize = 0;
    while i < n
        invariant
            n == s@.len(),
            i <= n,
            r@ == lower_seq(s@.take(i as int)),
        decreases n - i,
    {
        let c = s.get_char(i);
        push_char(&mut r, lower_char_exec(c));
        i = i + 1;
        proof {
            assert(r@ =~= lower_seq(s@.take(i as int)));
        }
    }
    proof {
        assert(s@.take(n as int) =~= s@);
    }
    r
}

/// Whether a character counts as alphanumeric when the tokenizer groups a
/// text run. Named, not spelled out: the classification is delegated to the
/// standard library, whose answer depends on the character alone.
pub uninterp spec fn alnum(c: char) -> bool;

/// Relies on `char::is_alphanumeric` from std: true exactly when the
/// character is alphabetic or numeric; on ASCII that holds for the letters
/// and the ten digits and for nothing else.
#[verifier::external_body]
fn char_is_alphanumeric(c: char) -> (r: bool)
    ensures
        r == alnum(c),
        (c as u32) < 128 ==> (r <==> ((48 <= (c as u32) && (c as u32) <= 57) || (65 <= (c as u32)
            && (c as u32) <= 90) || (97 <= (c as u32) && (c as u32) <= 122))),
{
    c.is_alphanumeric()
}

/// A character the tokenizer keeps inside one text run: alphanumeric or the
/// underscore.
pub open spec fn is_alphanum_char(c: char) -> bool {
    alnum(c) || c == '_'
}

/// Whether the tokenizer keeps this character inside one text run.
pub fn is_alphanum_(c: char) -> (r: bool)
    ensures
        r == is_alphanum_char(c),
{
    char_is_alphanumeric(c) || c == '_'
}

} // verus!
