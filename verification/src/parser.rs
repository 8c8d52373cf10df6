//! Name extraction: scans a source text for the identifiers that become the
//! program's tanks. An identifier is a maximal run of name characters
//! (lowercase ASCII letters and apostrophes); it must not start or end with an
//! apostrophe, must not contain two consecutive apostrophes, and must be
//! unique in the document.

use vstd::prelude::*;

verus! {

/// The errors that abort program construction.
#[derive(Debug, Clone)]
pub enum ParseError {
    /// A name occurred twice in the source text; holds the duplicated name.
    DuplicateName(String),
    /// A name broke the apostrophe rules; holds the offending name.
    InvalidName(String),
}

/// Ghost mirror of `ParseError`, over character sequences.
pub enum ParseErrorModel {
    DuplicateName(Seq<char>),
    InvalidName(Seq<char>),
}

impl View for ParseError {
    type V = ParseErrorModel;

    open spec fn view(&self) -> ParseErrorModel {
        match self {
            ParseError::DuplicateName(s) => ParseErrorModel::DuplicateName(s@),
            ParseError::InvalidName(s) => ParseErrorModel::InvalidName(s@),
        }
    }
}

impl PartialEq for ParseError {
    fn eq(&self, other: &ParseError) -> (r: bool) {
        match (self, other) {
            (ParseError::DuplicateName(a), ParseError::DuplicateName(b)) => a.eq(b),
            (ParseError::InvalidName(a), ParseError::InvalidName(b)) => a.eq(b),
            _ => false,
        }
    }
}

impl vstd::std_specs::cmp::PartialEqSpecImpl for ParseError {
    open spec fn obeys_eq_spec() -> bool {
        true
    }

    open spec fn eq_spec(&self, other: &ParseError) -> bool {
        self@ == other@
    }
}

impl ParseError {
    /// A short diagnostic label for the error kind.
    pub fn name(&self) -> (r: &'static str)
        ensures
            self is DuplicateName ==> r@ == "duplicate name found"@,
            self is InvalidName ==> r@ == "invalid name found"@,
    {
        match self {
            ParseError::DuplicateName(_) => "duplicate name found",
            ParseError::InvalidName(_) => "invalid name found",
        }
    }
}

/// A character that may stand inside a name.
pub open spec fn spec_is_valid_name_char(c: char) -> bool {
    ('a' <= c && c <= 'z') || c == '\''
}

/// Whether `c` may stand inside a name: a lowercase ASCII letter or an apostrophe.
pub fn is_valid_name_char(c: char) -> (r: bool)
    ensures
        r == spec_is_valid_name_char(c),
{
    ('a' <= c && c <= 'z') || c == '\''
}

/// A name is well-formed when it neither starts nor ends with an apostrophe
/// and never holds two consecutive apostrophes.
pub open spec fn spec_is_valid_name(s: Seq<char>) -> bool {
    &&& (s.len() > 0 ==> s[0] != '\'')
    &&& (s.len() > 0 ==> s[s.len() - 1] != '\'')
    &&& (forall|i: int| 0 <= i < s.len() - 1 ==> !(#[trigger] s[i] == '\'' && s[i + 1] == '\''))
}

/// Every character of `s` may stand inside a name.
pub open spec fn all_name_chars(s: Seq<char>) -> bool {
    forall|i: int| 0 <= i < s.len() ==> spec_is_valid_name_char(#[trigger] s[i])
}

/// The length of the maximal run of name characters at the head of `s`.
pub open spec fn run_len(s: Seq<char>) -> nat
    decreases s.len(),
{
    if s.len() == 0 || !spec_is_valid_name_char(s[0]) {
        0
    } else {
        1 + run_len(s.drop_first())
    }
}

pub proof fn lemma_run_len_le(s: Seq<char>)
    ensures
        run_len(s) <= s.len(),
    decreases s.len(),
{
    if s.len() > 0 && spec_is_valid_name_char(s[0]) {
        lemma_run_len_le(s.drop_first());
    }
}

/// The head run ends exactly where the name characters stop.
pub proof fn lemma_run_len_eq(s: Seq<char>, m: int)
    requires
        0 <= m <= s.len(),
        forall|k: int| 0 <= k < m ==> spec_is_valid_name_char(#[trigger] s[k]),
        m == s.len() || !spec_is_valid_name_char(s[m]),
    ensures
        run_len(s) == m,
    decreases m,
{
    if m == 0 {
    } else {
        assert(spec_is_valid_name_char(s[0]));
        let t = s.drop_first();
        assert(forall|k: int| 0 <= k < m - 1 ==> spec_is_valid_name_char(#[trigger] t[k]));
        lemma_run_len_eq(t, m - 1);
    }
}

/// The meaning of name extraction: walk the text, take each maximal run of
/// name characters as a name, reject an ill-formed or repeated name, and
/// collect the names in order of first occurrence.
pub open spec fn spec_parse_names(s: Seq<char>, acc: Seq<Seq<char>>) -> Result<
    Seq<Seq<char>>,
    ParseErrorModel,
>
    decreases s.len(),
    via spec_parse_names_dec
{
    if s.len() == 0 {
        Ok(acc)
    } else if !spec_is_valid_name_char(s[0]) {
        spec_parse_names(s.drop_first(), acc)
    } else {
        let k = run_len(s) as int;
        let name = s.take(k);
        if !spec_is_valid_name(name) {
            Err(ParseErrorModel::InvalidName(name))
        } else if acc.contains(name) {
            Err(ParseErrorModel::DuplicateName(name))
        } else {
            spec_parse_names(s.skip(k), acc.push(name))
        }
    }
}

#[via_fn]
proof fn spec_parse_names_dec(s: Seq<char>, acc: Seq<Seq<char>>) {
    lemma_run_len_le(s);
}

/// Checks the apostrophe rules on a candidate name.
pub fn is_valid_name(name: &str) -> (r: bool)
    ensures
        r == spec_is_valid_name(name@),
{
    let n = name.unicode_len();
    if n == 0 {
        return true;
    }
    if name.get_char(0) == '\'' {
        return false;
    }
    if name.get_char(n - 1) == '\'' {
        return false;
    }
    let mut i: usize = 0;
    while i < n - 1
        invariant
            n == name@.len(),
            1 <= n,
            0 <= i <= n,
            forall|k: int| 0 <= k < i ==> !(#[trigger] name@[k] == '\'' && name@[k + 1] == '\''),
        decreases n - i,
    {
        if name.get_char(i) == '\'' && name.get_char(i + 1) == '\'' {
            return false;
        }
        i = i + 1;
    }
    true
}

/// The view of a list of owned names, as a sequence of character sequences.
pub open spec fn names_view(names: Seq<String>) -> Seq<Seq<char>> {
    names.map_values(|s: String| s@)
}

/// Scans the source text and yields its names in order of first occurrence.
///
/// The result is exactly `spec_parse_names` on the text: the same text always
/// yields the same names, an ill-formed name is reported as `InvalidName` and
/// a repeated one as `DuplicateName`, each carrying the offending name.
pub fn parse_names(code: &str) -> (r: Result<Vec<String>, ParseError>)
    ensures
        match r {
            Ok(names) => {
                &&& spec_parse_names(code@, Seq::empty()) == Ok::<_, ParseErrorModel>(
                    names_view(names@),
                )
                &&& forall|k: int|
                    0 <= k < names@.len() ==> spec_is_valid_name(#[trigger] names@[k]@)
                        && all_name_chars(names@[k]@) && names@[k]@.len() >= 1
                &&& forall|k1: int, k2: int|
                    0 <= k1 < k2 < names@.len() ==> names@[k1]@ != names@[k2]@
            },
            Err(e) => spec_parse_names(code@, Seq::empty()) == Err::<Seq<Seq<char>>, _>(e@),
        },
{
    let n = code.unicode_len();
    let mut names: Vec<String> = Vec::new();
    let mut i: usize = 0;
    proof {
        assert(code@.skip(0) =~= code@);
        assert(names_view(names@) =~= Seq::<Seq<char>>::empty());
    }
    while i < n
        invariant
            n == code@.len(),
            i <= n,
            spec_parse_names(code@, Seq::empty()) == spec_parse_names(
                code@.skip(i as int),
                names_view(names@),
            ),
            forall|k: int|
                0 <= k < names@.len() ==> spec_is_valid_name(#[trigger] names@[k]@)
                    && all_name_chars(names@[k]@) && names@[k]@.len() >= 1,
            forall|k1: int, k2: int| 0 <= k1 < k2 < names@.len() ==> names@[k1]@ != names@[k2]@,
        decreases n - i,
    {
        let c = code.get_char(i);
        if is_valid_name_char(c) {
            let mut j = i + 1;
            while j < n && is_valid_name_char(code.get_char(j))
                invariant
                    n == code@.len(),
                    i < j <= n,
                    forall|k: int|
                        i <= k < j ==> spec_is_valid_name_char(#[trigger] code@[k]),
                decreases n - j,
            {
                j = j + 1;
            }
            let ghost suffix = code@.skip(i as int);
            proof {
                assert(forall|k: int|
                    0 <= k < j - i ==> spec_is_valid_name_char(#[trigger] suffix[k]));
                if j < n {
                    assert(suffix[j - i] == code@[j as int]);
                }
                lemma_run_len_eq(suffix, j - i);
                assert(suffix.take(j - i) =~= code@.subrange(i as int, j as int));
            }
            let name = code.substring_char(i, j);
            if !is_valid_name(name) {
                return Err(ParseError::InvalidName(name.to_owned()));
            }
            let owned = name.to_owned();
            let mut dup = false;
            let mut k: usize = 0;
            while k < names.len()
                invariant
                    owned@ == name@,
                    dup ==> names_view(names@).contains(name@),
                    !dup ==> forall|q: int| 0 <= q < k ==> (#[trigger] names@[q]@) != name@,
                    k <= names@.len(),
                decreases names@.len() - k,
            {
                if names[k] == owned {
                    dup = true;
                    proof {
                        assert(names@[k as int]@ == name@);
                        assert(names_view(names@)[k as int] == names@[k as int]@);
                    }
                }
                k = k + 1;
            }
            proof {
                if !dup {
                    assert(!names_view(names@).contains(name@)) by {
                        if names_view(names@).contains(name@) {
                            let q = choose|q: int|
                                0 <= q < names_view(names@).len() && names_view(names@)[q]
                                    == name@;
                            assert(names@[q]@ == name@);
                        }
                    }
                }
            }
            if dup {
                return Err(ParseError::DuplicateName(owned));
            }
            let ghost acc0 = names_view(names@);
            names.push(owned);
            proof {
                assert(spec_parse_names(suffix, acc0) == spec_parse_names(
                    suffix.skip(j - i),
                    acc0.push(name@),
                ));
                assert(names_view(names@) =~= acc0.push(name@));
                assert(suffix.skip(j - i) =~= code@.skip(j as int));
            }
            i = j;
        } else {
            proof {
                assert(code@.skip(i as int)[0] == code@[i as int]);
                assert(code@.skip(i as int).drop_first() =~= code@.skip(i as int + 1));
            }
            i = i + 1;
        }
    }
    proof {
        assert(code@.skip(n as int) =~= Seq::<char>::empty());
    }
    Ok(names)
}

} // verus!
