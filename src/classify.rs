//! Assigning a file name to a vendor code and a photo slot.
//!
//! A name belongs to the longest candidate code that prefixes it, ignoring
//! letter case. What follows the code must be either `_<digits>.<word>` or
//! `-<digits>.<word>` (the digits give the photo number) or start with a dot
//! (photo number one).
use vstd::prelude::*;
use vstd::string::*;
use crate::text::{has_prefix, is_prefix, lower_of, lowercase};

verus! {

pub open spec fn is_digit(c: char) -> bool {
    '0' <= c && c <= '9'
}

pub open spec fn is_word_char(c: char) -> bool {
    is_digit(c) || ('a' <= c && c <= 'z') || ('A' <= c && c <= 'Z') || c == '_'
}

/// The first index at or after `i` that does not hold a digit.
pub open spec fn digit_run_end(s: Seq<char>, i: int) -> int
    decreases s.len() - i,
{
    if i < 0 || i >= s.len() || !is_digit(s[i]) {
        i
    } else {
        digit_run_end(s, i + 1)
    }
}

/// The decimal value of a sequence of digits.
pub open spec fn digits_value(d: Seq<char>) -> nat
    decreases d.len(),
{
    if d.len() == 0 {
        0
    } else {
        digits_value(d.drop_last()) * 10 + ((d.last() as u32 - '0' as u32) as nat)
    }
}

/// `rest` reads `_<digits>.<word>` or `-<digits>.<word>`, where the digits
/// end at `k`.
pub open spec fn numbered_suffix(rest: Seq<char>, k: int) -> bool {
    &&& rest.len() >= 1
    &&& (rest[0] == '_' || rest[0] == '-')
    &&& k == digit_run_end(rest, 1)
    &&& 2 <= k < rest.len() - 1
    &&& rest[k] == '.'
    &&& forall|j: int| k < j < rest.len() ==> is_word_char(#[trigger] rest[j])
}

/// The photo number that a digit string gives: its value, or one where the
/// value does not fit in 32 bits.
pub open spec fn photo_from_digits(d: Seq<char>) -> u32 {
    if digits_value(d) <= u32::MAX {
        digits_value(d) as u32
    } else {
        1
    }
}

/// The photo number that the text after a vendor code gives, or `None` where
/// the text has neither accepted shape.
pub open spec fn photo_of(rest: Seq<char>) -> Option<u32> {
    let k = digit_run_end(rest, 1);
    if numbered_suffix(rest, k) {
        Some(photo_from_digits(rest.subrange(1, k)))
    } else if rest.len() >= 1 && rest[0] == '.' {
        Some(1)
    } else {
        None
    }
}

/// Among the first `n` folded codes, the index of the first of the longest
/// that prefix `name`.
pub open spec fn best_prefix(name: Seq<char>, folded: Seq<Seq<char>>, n: int) -> Option<int>
    decreases n,
{
    if n <= 0 {
        None
    } else {
        let b = best_prefix(name, folded, n - 1);
        if is_prefix(folded[n - 1], name) && (b is None || folded[n - 1].len() > folded[b->0].len()) {
            Some(n - 1)
        } else {
            b
        }
    }
}

/// The outcome of classifying one file name.
#[derive(Debug)]
pub enum Classification {
    /// The name belongs to `code`, in photo slot `photo`.
    Matched { code: String, photo: u32 },
    /// `code` prefixes the name, but the rest of the name has the wrong shape.
    WrongPattern { code: String },
    /// No candidate code prefixes the name.
    NoPrefix,
}

/// `r` is the classification of the folded name `name` against `codes`,
/// whose folded forms are `folded`.
pub open spec fn classified_as(
    r: Classification,
    name: Seq<char>,
    codes: Seq<Seq<char>>,
    folded: Seq<Seq<char>>,
) -> bool {
    match best_prefix(name, folded, folded.len() as int) {
        None => r is NoPrefix,
        Some(i) => match photo_of(name.subrange(folded[i].len() as int, name.len() as int)) {
            Some(p) => r matches Classification::Matched { code, photo } && code@ == codes[i]
                && photo == p,
            None => r matches Classification::WrongPattern { code } && code@ == codes[i],
        },
    }
}

/// The code and photo number that the folded name `name` is assigned, where
/// it is assigned one.
pub open spec fn assignment(name: Seq<char>, codes: Seq<Seq<char>>, folded: Seq<Seq<char>>) -> Option<
    (Seq<char>, u32),
> {
    match best_prefix(name, folded, folded.len() as int) {
        None => None,
        Some(i) => match photo_of(name.subrange(folded[i].len() as int, name.len() as int)) {
            Some(p) => Some((codes[i], p)),
            None => None,
        },
    }
}

/// The code that prefixes the folded name `name` where the rest of the name
/// has the wrong shape.
pub open spec fn wrong_pattern(name: Seq<char>, codes: Seq<Seq<char>>, folded: Seq<Seq<char>>) -> Option<
    Seq<char>,
> {
    match best_prefix(name, folded, folded.len() as int) {
        None => None,
        Some(i) => match photo_of(name.subrange(folded[i].len() as int, name.len() as int)) {
            Some(_) => None,
            None => Some(codes[i]),
        },
    }
}

/// A classification is a match exactly when the name is assigned a code, and
/// then it carries that code and photo number; it is a wrong shape exactly
/// when a code prefixes the name but the rest does not fit.
pub proof fn classified_assignment(
    r: Classification,
    name: Seq<char>,
    codes: Seq<Seq<char>>,
    folded: Seq<Seq<char>>,
)
    requires
        classified_as(r, name, codes, folded),
    ensures
        match r {
            Classification::Matched { code, photo } => assignment(name, codes, folded) == Some(
                (code@, photo),
            ),
            _ => assignment(name, codes, folded) is None,
        },
        match r {
            Classification::WrongPattern { code } => wrong_pattern(name, codes, folded) == Some(
                code@,
            ),
            _ => wrong_pattern(name, codes, folded) is None,
        },
{
}

/// The folded forms of a list of codes.
pub open spec fn folded_codes(codes: Seq<String>) -> Seq<Seq<char>> {
    codes.map_values(|c: String| lower_of(c@))
}

pub open spec fn views(codes: Seq<String>) -> Seq<Seq<char>> {
    codes.map_values(|c: String| c@)
}

/// The photo number of the text that follows a vendor code in a file name.
pub fn photo_number(rest: &str) -> (r: Option<u32>)
    ensures
        r == photo_of(rest@),
{
    let n = rest.unicode_len();
    if n == 0 {
        return None;
    }
    let first = rest.get_char(0);
    let mut k: usize = 1;
    let mut value: u64 = 0;
    let mut overflow = false;
    while k < n && '0' <= rest.get_char(k) && rest.get_char(k) <= '9'
        invariant
            n == rest@.len(),
            1 <= k <= n,
            forall|j: int| 1 <= j < k ==> is_digit(#[trigger] rest@[j]),
            digit_run_end(rest@, k as int) == digit_run_end(rest@, 1),
            !overflow ==> value == digits_value(rest@.subrange(1, k as int)),
            !overflow ==> value <= u32::MAX,
            overflow ==> digits_value(rest@.subrange(1, k as int)) > u32::MAX,
        decreases n - k,
    {
        let c = rest.get_char(k);
        proof {
            let d = rest@.subrange(1, k as int + 1);
            assert(d.drop_last() =~= rest@.subrange(1, k as int));
            assert(d.last() == c);
            if overflow {
                assert(digits_value(d) >= digits_value(d.drop_last())) by (nonlinear_arith)
                    requires
                        digits_value(d) == digits_value(d.drop_last()) * 10 + ((d.last() as u32
                            - '0' as u32) as nat),
                ;
            }
        }
        if !overflow {
            let next = value * 10 + (c as u64 - '0' as u64);
            if next > u32::MAX as u64 {
                overflow = true;
            } else {
                value = next;
            }
        }
        k = k + 1;
    }
    let matched = if (first == '_' || first == '-') && k >= 2 && k < n - 1
        && rest.get_char(k) == '.' {
        let mut j: usize = k + 1;
        let mut all_word = true;
        while j < n
            invariant
                n == rest@.len(),
                k + 1 <= j <= n,
                all_word == (forall|t: int| k < t < j ==> is_word_char(#[trigger] rest@[t])),
            decreases n - j,
        {
            let c = rest.get_char(j);
            if !(('0' <= c && c <= '9') || ('a' <= c && c <= 'z') || ('A' <= c && c <= 'Z') || c
                == '_') {
                all_word = false;
            }
            j = j + 1;
        }
        all_word
    } else {
        false
    };
    proof {
        assert(k == digit_run_end(rest@, k as int));
    }
    if matched {
        if overflow {
            Some(1)
        } else {
            Some(value as u32)
        }
    } else if first == '.' {
        Some(1)
    } else {
        None
    }
}

/// Index of the first of the longest entries of `folded` that prefix `name`.
pub fn longest_prefix(name: &str, folded: &Vec<String>) -> (r: Option<usize>)
    ensures
        match r {
            Some(i) => best_prefix(name@, views(folded@), folded@.len() as int) == Some(i as int),
            None => best_prefix(name@, views(folded@), folded@.len() as int) is None,
        },
        r matches Some(i) ==> i < folded@.len(),
{
    let ghost fv = views(folded@);
    let mut best: Option<usize> = None;
    let mut best_len: usize = 0;
    let mut i: usize = 0;
    while i < folded.len()
        invariant
            i <= folded@.len(),
            fv == views(folded@),
            match best {
                Some(b) => best_prefix(name@, fv, i as int) == Some(b as int) && b < i
                    && best_len == fv[b as int].len(),
                None => best_prefix(name@, fv, i as int) is None,
            },
        decreases folded@.len() - i,
    {
        let p = folded[i].as_str();
        assert(fv[i as int] == p@);
        if has_prefix(name, p) {
            let len = p.unicode_len();
            let longer = match best {
                Some(_) => len > best_len,
                None => true,
            };
            if longer {
                best = Some(i);
                best_len = len;
            }
        }
        i = i + 1;
    }
    best
}

/// Classifies a name already in lower case against `codes`, whose lower-case
/// forms are `folded`, position by position.
pub fn classify_folded(name: &str, codes: &Vec<String>, folded: &Vec<String>) -> (r:
    Classification)
    requires
        codes@.len() == folded@.len(),
    ensures
        classified_as(r, name@, views(codes@), views(folded@)),
{
    match longest_prefix(name, folded) {
        None => Classification::NoPrefix,
        Some(i) => {
            let p = folded[i].as_str();
            assert(views(folded@)[i as int] == p@);
            proof {
                best_prefix_is_longest(name@, views(folded@), folded@.len() as int);
            }
            let start = p.unicode_len();
            let rest = name.substring_char(start, name.unicode_len());
            let code = codes[i].clone();
            assert(views(codes@)[i as int] == code@);
            match photo_number(rest) {
                Some(photo) => Classification::Matched { code, photo },
                None => Classification::WrongPattern { code },
            }
        },
    }
}

/// The lower-case forms of `codes`, position by position.
pub fn fold_codes(codes: &Vec<String>) -> (r: Vec<String>)
    ensures
        views(r@) == folded_codes(codes@),
        r@.len() == codes@.len(),
{
    let mut r: Vec<String> = Vec::new();
    let mut i: usize = 0;
    while i < codes.len()
        invariant
            i <= codes@.len(),
            r@.len() == i,
            forall|j: int| 0 <= j < i ==> (#[trigger] r@[j])@ == lower_of(codes@[j]@),
        decreases codes@.len() - i,
    {
        let f = lowercase(codes[i].as_str());
        r.push(f);
        i = i + 1;
    }
    assert(views(r@) =~= folded_codes(codes@));
    r
}

/// Classifies a file name against candidate vendor codes, ignoring letter case.
pub fn classify(name: &str, codes: &Vec<String>) -> (r: Classification)
    ensures
        classified_as(r, lower_of(name@), views(codes@), folded_codes(codes@)),
{
    let folded = fold_codes(codes);
    let folded_name = lowercase(name);
    classify_folded(folded_name.as_str(), codes, &folded)
}

/// The code picked among the first `n` is a prefix of the name, no shorter
/// than any other prefix among them and strictly longer than any earlier
/// one; none is picked exactly when no code among them is a prefix.
pub proof fn best_prefix_is_longest(name: Seq<char>, folded: Seq<Seq<char>>, n: int)
    requires
        0 <= n <= folded.len(),
    ensures
        best_prefix(name, folded, n) is None <==> (forall|j: int|
            0 <= j < n ==> !is_prefix(#[trigger] folded[j], name)),
        best_prefix(name, folded, n) matches Some(i) ==> {
            &&& 0 <= i < n
            &&& is_prefix(folded[i], name)
            &&& forall|j: int|
                0 <= j < n && is_prefix(#[trigger] folded[j], name) ==> folded[j].len()
                    <= folded[i].len()
            &&& forall|j: int|
                0 <= j < i && is_prefix(#[trigger] folded[j], name) ==> folded[j].len()
                    < folded[i].len()
        },
    decreases n,
{
    if n > 0 {
        best_prefix_is_longest(name, folded, n - 1);
    }
}

/// Classification answers "no prefix" exactly when no candidate code,
/// ignoring case, prefixes the name; otherwise it names the first of the
/// longest such codes.
pub proof fn classify_picks_longest_prefix(r: Classification, name: Seq<char>, codes: Seq<String>)
    requires
        classified_as(r, lower_of(name), views(codes), folded_codes(codes)),
    ensures
        r is NoPrefix <==> (forall|j: int|
            0 <= j < codes.len() ==> !is_prefix(lower_of(#[trigger] codes[j]@), lower_of(name))),
        match r {
            Classification::Matched { code, .. } | Classification::WrongPattern { code } => exists|
                i: int,
            |
                0 <= i < codes.len() && code@ == #[trigger] codes[i]@ && is_prefix(
                    lower_of(codes[i]@),
                    lower_of(name),
                ) && (forall|j: int|
                    0 <= j < codes.len() && is_prefix(lower_of(#[trigger] codes[j]@), lower_of(name))
                        ==> lower_of(codes[j]@).len() <= lower_of(codes[i]@).len()),
            Classification::NoPrefix => true,
        },
{
    let f = folded_codes(codes);
    best_prefix_is_longest(lower_of(name), f, f.len() as int);
    assert forall|j: int| 0 <= j < codes.len() implies f[j] == lower_of(#[trigger] codes[j]@) by {}
    match best_prefix(lower_of(name), f, f.len() as int) {
        Some(i) => {
            assert(views(codes)[i] == codes[i]@);
            assert(f[i] == lower_of(codes[i]@));
        },
        None => {},
    }
}

/// A media file assigned to a vendor code.
#[derive(Clone, Debug)]
pub struct FileInfo {
    pub name: String,
    /// Where the file is found: a path in the remote tree, or a local path.
    pub path: String,
    /// The vendor code that the file belongs to.
    pub articul: String,
    pub photo_number: u32,
}

/// A file record as plain values: name, path, code, photo number.
pub open spec fn file_view(f: FileInfo) -> (Seq<char>, Seq<char>, Seq<char>, u32) {
    (f.name@, f.path@, f.articul@, f.photo_number)
}

/// A file whose name starts with a vendor code but does not fit the accepted
/// shapes; kept so that it can be reported apart from names that match no code.
#[derive(Clone, Debug)]
pub struct Mismatch {
    pub name: String,
    pub path: String,
    /// The vendor code that prefixes the name.
    pub code: String,
}

/// A mismatch as plain values: name, path, code.
pub open spec fn mismatch_view(m: Mismatch) -> (Seq<char>, Seq<char>, Seq<char>) {
    (m.name@, m.path@, m.code@)
}

/// `f` carries the classification of its own name against `codes`.
pub open spec fn file_ok(f: FileInfo, codes: Seq<String>) -> bool {
    classified_as(
        Classification::Matched { code: f.articul, photo: f.photo_number },
        lower_of(f.name@),
        views(codes),
        folded_codes(codes),
    )
}

pub open spec fn files_ok(fs: Seq<FileInfo>, codes: Seq<String>) -> bool {
    forall|k: int| 0 <= k < fs.len() ==> file_ok(#[trigger] fs[k], codes)
}

} // verus!
