//! Text: comparing it, lowering and trimming it, escaping it for JSON, and
//! writing decimal numbers in the shortest way.

use vstd::prelude::*;
use vstd::string::*;
use vstd::utf8::*;

verus! {

/// Whether two strings hold the same text.
pub fn same_text(a: &str, b: &str) -> (same: bool)
    ensures
        same == (a@ == b@),
{
    let x = a.as_bytes();
    let y = b.as_bytes();
    proof {
        encode_utf8_decode_utf8(a@);
        encode_utf8_decode_utf8(b@);
    }
    if x.len() != y.len() {
        return false;
    }
    let mut i: usize = 0;
    while i < x.len()
        invariant
            i <= x.len(),
            x.len() == y.len(),
            x@ == encode_utf8(a@),
            y@ == encode_utf8(b@),
            forall|j: int| 0 <= j < i ==> x@[j] == y@[j],
        decreases x.len() - i,
    {
        if x[i] != y[i] {
            return false;
        }
        i = i + 1;
    }
    assert(x@ =~= y@);
    true
}

/// `String::push` of the standard library appends one character to the text
/// and leaves the rest as it was.
pub assume_specification[ String::push ](text: &mut String, ch: char)
    ensures
        final(text)@ == old(text)@.push(ch),
;

/// What `str::to_lowercase` of the standard library makes of a text: its
/// lowercase equivalent by the rules of Unicode.
pub uninterp spec fn lowercased(text: Seq<char>) -> Seq<char>;

/// What `str::trim` of the standard library leaves of a text: the text
/// without the white space, by the rules of Unicode, at its two ends.
pub uninterp spec fn trimmed(text: Seq<char>) -> Seq<char>;

/// `str::to_lowercase` of the standard library returns the lowercase
/// equivalent of the text, which depends on the text alone.
pub assume_specification[ str::to_lowercase ](text: &str) -> (lower: String)
    ensures
        lower@ == lowercased(text@),
;

/// `str::trim` of the standard library returns the text without leading and
/// trailing white space, which depends on the text alone.
pub assume_specification<'a>[ str::trim ](text: &'a str) -> (rest: &'a str)
    ensures
        rest@ == trimmed(text@),
;

/// What stands for one character inside a JSON string: a backslash escape for
/// the backslash, the double quote, line feed, carriage return and tab, and
/// the character itself otherwise.
pub open spec fn escaped_char(ch: char) -> Seq<char> {
    if ch == '\\' {
        seq!['\\', '\\']
    } else if ch == '"' {
        seq!['\\', '"']
    } else if ch == '\n' {
        seq!['\\', 'n']
    } else if ch == '\r' {
        seq!['\\', 'r']
    } else if ch == '\t' {
        seq!['\\', 't']
    } else {
        seq![ch]
    }
}

/// The text with each character replaced by what stands for it inside a JSON
/// string.
pub open spec fn escaped(text: Seq<char>) -> Seq<char> {
    text.map_values(|ch: char| escaped_char(ch)).flatten()
}

proof fn lemma_escaped_push(text: Seq<char>, ch: char)
    ensures
        escaped(text.push(ch)) == escaped(text) + escaped_char(ch),
{
    let parts = text.map_values(|ch: char| escaped_char(ch));
    assert(text.push(ch).map_values(|ch: char| escaped_char(ch)) =~= parts.push(escaped_char(ch)));
    parts.lemma_flatten_push(escaped_char(ch));
}

/// Escapes `input` for use inside a JSON string.
pub fn json_escape(input: &str) -> (output: String)
    ensures
        output@ == escaped(input@),
{
    let mut output = String::new();
    assert(escaped(Seq::<char>::empty()) =~= Seq::<char>::empty());
    for ch in it: input.chars()
        invariant
            it.seq() == input@,
            output@ == escaped(input@.take(it.index() as int)),
    {
        proof {
            lemma_escaped_push(input@.take(it.index() as int), ch);
            assert(input@.take(it.index() + 1) =~= input@.take(it.index() as int).push(ch));
        }
        if ch == '\\' {
            output.push('\\');
            output.push('\\');
        } else if ch == '"' {
            output.push('\\');
            output.push('"');
        } else if ch == '\n' {
            output.push('\\');
            output.push('n');
        } else if ch == '\r' {
            output.push('\\');
            output.push('r');
        } else if ch == '\t' {
            output.push('\\');
            output.push('t');
        } else {
            output.push(ch);
        }
        assert(output@ =~= escaped(input@.take(it.index() as int)) + escaped_char(ch));
    }
    assert(input@.take(input@.len() as int) =~= input@);
    output
}

/// The text without the zeros at its end, where it holds a point.
pub open spec fn without_trailing_zeros(text: Seq<char>) -> Seq<char>
    decreases text.len(),
{
    if text.contains('.') && text.len() > 0 && text.last() == '0' {
        without_trailing_zeros(text.drop_last())
    } else {
        text
    }
}

/// The text without the point at its end, if it ends in one.
pub open spec fn without_trailing_point(text: Seq<char>) -> Seq<char> {
    if text.len() > 0 && text.last() == '.' {
        text.drop_last()
    } else {
        text
    }
}

/// The shortest way to write the decimal number `text`: without zeros at the
/// end of its fraction, without a point that nothing follows, and as `0`
/// where minus zero or nothing is left.
pub open spec fn shortest_decimal(text: Seq<char>) -> Seq<char> {
    let short = without_trailing_point(without_trailing_zeros(text));
    if short == "-0"@ || short == "-0.0"@ || short.len() == 0 {
        "0"@
    } else {
        short
    }
}

proof fn lemma_point_stays(text: Seq<char>, end: int)
    requires
        0 < end <= text.len(),
        text.contains('.'),
        forall|i: int| end <= i < text.len() ==> text[i] == '0',
    ensures
        text.take(end).contains('.'),
{
    let at = choose|i: int| 0 <= i < text.len() && text[i] == '.';
    assert(at < end);
    assert(text.take(end)[at] == '.');
}

proof fn lemma_without_trailing_zeros(text: Seq<char>, end: int)
    requires
        0 <= end <= text.len(),
        text.contains('.'),
        forall|i: int| end <= i < text.len() ==> text[i] == '0',
    ensures
        without_trailing_zeros(text) == without_trailing_zeros(text.take(end)),
    decreases text.len() - end,
{
    if end == text.len() {
        assert(text.take(end) =~= text);
    } else {
        assert(text.last() == '0');
        let shorter = text.drop_last();
        let at = choose|i: int| 0 <= i < text.len() && text[i] == '.';
        assert(shorter[at] == '.');
        assert(shorter.take(end) =~= text.take(end));
        lemma_without_trailing_zeros(shorter, end);
    }
}

/// Writes the decimal number `text` in the shortest way.
pub fn trim_decimal(text: &str) -> (output: String)
    ensures
        output@ == shortest_decimal(text@),
{
    let mut chars: Vec<char> = Vec::new();
    let mut pointed = false;
    for ch in it: text.chars()
        invariant
            it.seq() == text@,
            chars@ == text@.take(it.index() as int),
            pointed == text@.take(it.index() as int).contains('.'),
    {
        proof {
            let seen = text@.take(it.index() as int);
            let more = text@.take(it.index() + 1);
            assert(more =~= seen.push(ch));
            if seen.contains('.') {
                let at = choose|i: int| 0 <= i < seen.len() && seen[i] == '.';
                assert(more[at] == '.');
            }
            if ch == '.' {
                assert(more[it.index() as int] == '.');
            }
        }
        if ch == '.' {
            pointed = true;
        }
        chars.push(ch);
    }
    assert(text@.take(text@.len() as int) =~= text@);
    let mut end: usize = chars.len();
    if pointed {
        while end > 0 && chars[end - 1] == '0'
            invariant
                end <= chars.len(),
                chars@ == text@,
                text@.contains('.'),
                forall|i: int| end <= i < chars.len() ==> chars@[i] == '0',
            decreases end,
        {
            end = end - 1;
        }
        proof {
            lemma_without_trailing_zeros(text@, end as int);
            if end > 0 {
                lemma_point_stays(text@, end as int);
                assert(text@.take(end as int).last() != '0');
            }
        }
    }
    assert(without_trailing_zeros(text@) == text@.take(end as int));
    if end > 0 && chars[end - 1] == '.' {
        assert(text@.take(end as int).drop_last() =~= text@.take(end - 1));
        end = end - 1;
    }
    let ghost short = text@.take(end as int);
    assert(short == without_trailing_point(without_trailing_zeros(text@)));
    proof {
        reveal_strlit("-0");
        reveal_strlit("-0.0");
        reveal_strlit("0");
    }
    let minus_zero = (end == 2 && chars[0] == '-' && chars[1] == '0') || (end == 4 && chars[0]
        == '-' && chars[1] == '0' && chars[2] == '.' && chars[3] == '0');
    assert(minus_zero == (short == "-0"@ || short == "-0.0"@)) by {
        if end == 2 && chars[0] == '-' && chars[1] == '0' {
            assert(short =~= "-0"@);
        }
        if end == 4 && chars[0] == '-' && chars[1] == '0' && chars[2] == '.' && chars[3] == '0' {
            assert(short =~= "-0.0"@);
        }
        if short == "-0"@ {
            assert(short.len() == 2 && short[0] == '-' && short[1] == '0');
        }
        if short == "-0.0"@ {
            assert(short.len() == 4 && short[0] == '-' && short[1] == '0' && short[2] == '.'
                && short[3] == '0');
        }
    }
    let mut output = String::new();
    if minus_zero || end == 0 {
        output.push('0');
        assert(output@ =~= "0"@);
        return output;
    }
    let mut i: usize = 0;
    while i < end
        invariant
            i <= end <= chars.len(),
            chars@ == text@,
            output@ == text@.take(i as int),
        decreases end - i,
    {
        output.push(chars[i]);
        assert(text@.take(i + 1) =~= text@.take(i as int).push(chars@[i as int]));
        i = i + 1;
    }
    output
}

} // verus!
