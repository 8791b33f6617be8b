//! Deriving each tile's output file name: the source image's stem and
//! extension around the tile's rounded lower-left coordinate, written in
//! decimal, under the output directory.

use vstd::prelude::*;
use vstd::string::*;
use vstd::arithmetic::div_mod::lemma_div_decreases;

verus! {

/// The decimal digit character for `d` in `0..10`.
pub open spec fn digit_char(d: int) -> char {
    if d == 0 {
        '0'
    } else if d == 1 {
        '1'
    } else if d == 2 {
        '2'
    } else if d == 3 {
        '3'
    } else if d == 4 {
        '4'
    } else if d == 5 {
        '5'
    } else if d == 6 {
        '6'
    } else if d == 7 {
        '7'
    } else if d == 8 {
        '8'
    } else {
        '9'
    }
}

/// The decimal digits of `n`, most significant first, with no sign and no
/// leading zero except for `n == 0` itself.
pub open spec fn dec_rep(n: nat) -> Seq<char>
    decreases n,
{
    if n < 10 {
        seq![digit_char(n as int)]
    } else {
        dec_rep(n / 10).push(digit_char((n % 10) as int))
    }
}

/// The decimal writing of `n`, with a leading `-` when `n` is negative.
pub open spec fn int_rep(n: int) -> Seq<char> {
    if n < 0 {
        seq!['-'] + dec_rep((-n) as nat)
    } else {
        dec_rep(n as nat)
    }
}

/// The single-character string for digit `d`.
fn digit_str(d: u64) -> (s: &'static str)
    requires
        d < 10,
    ensures
        s@ == seq![digit_char(d as int)],
{
    if d == 0 {
        proof {
            reveal_strlit("0");
            assert("0"@ =~= seq![digit_char(0)]);
        }
        "0"
    } else if d == 1 {
        proof {
            reveal_strlit("1");
            assert("1"@ =~= seq![digit_char(1)]);
        }
        "1"
    } else if d == 2 {
        proof {
            reveal_strlit("2");
            assert("2"@ =~= seq![digit_char(2)]);
        }
        "2"
    } else if d == 3 {
        proof {
            reveal_strlit("3");
            assert("3"@ =~= seq![digit_char(3)]);
        }
        "3"
    } else if d == 4 {
        proof {
            reveal_strlit("4");
            assert("4"@ =~= seq![digit_char(4)]);
        }
        "4"
    } else if d == 5 {
        proof {
            reveal_strlit("5");
            assert("5"@ =~= seq![digit_char(5)]);
        }
        "5"
    } else if d == 6 {
        proof {
            reveal_strlit("6");
            assert("6"@ =~= seq![digit_char(6)]);
        }
        "6"
    } else if d == 7 {
        proof {
            reveal_strlit("7");
            assert("7"@ =~= seq![digit_char(7)]);
        }
        "7"
    } else if d == 8 {
        proof {
            reveal_strlit("8");
            assert("8"@ =~= seq![digit_char(8)]);
        }
        "8"
    } else {
        proof {
            reveal_strlit("9");
            assert("9"@ =~= seq![digit_char(9)]);
        }
        "9"
    }
}

/// Write `n` in decimal.
pub fn u64_dec(n: u64) -> (r: String)
    ensures
        r@ == dec_rep(n as nat),
    decreases n,
{
    if n < 10 {
        String::from_str(digit_str(n))
    } else {
        proof {
            lemma_div_decreases(n as int, 10);
        }
        let mut s = u64_dec(n / 10);
        s.append(digit_str(n % 10));
        proof {
            assert(s@ =~= dec_rep(n as nat));
        }
        s
    }
}

/// Write `n` in decimal, with a leading `-` when it is negative.
pub fn i64_dec(n: i64) -> (r: String)
    ensures
        r@ == int_rep(n as int),
{
    if n >= 0 {
        u64_dec(n as u64)
    } else {
        let mag: u64 = if n == i64::MIN {
            9223372036854775808u64
        } else {
            (-n) as u64
        };
        let mut s = String::from_str("-");
        let digits = u64_dec(mag);
        s.append(digits.as_str());
        proof {
            reveal_strlit("-");
            assert(s@ =~= int_rep(n as int));
        }
        s
    }
}

/// The output file name for a tile: the source image's stem and extension
/// around the tile's rounded lower-left easting and northing, under the
/// output directory.
pub open spec fn tile_name(
    out_dir: Seq<char>,
    stem: Seq<char>,
    ext: Seq<char>,
    easting: int,
    northing: int,
) -> Seq<char> {
    out_dir + seq!['/'] + stem + seq!['_'] + int_rep(easting) + seq!['_'] + int_rep(northing)
        + seq!['.'] + ext
}

/// Build the output file name `{out_dir}/{stem}_{easting}_{northing}.{ext}`.
pub fn tile_file_name(out_dir: &str, stem: &str, ext: &str, easting: i64, northing: i64) -> (r:
    String)
    ensures
        r@ == tile_name(out_dir@, stem@, ext@, easting as int, northing as int),
{
    let mut s = String::from_str(out_dir);
    s.append("/");
    s.append(stem);
    s.append("_");
    let e = i64_dec(easting);
    s.append(e.as_str());
    s.append("_");
    let n = i64_dec(northing);
    s.append(n.as_str());
    s.append(".");
    s.append(ext);
    proof {
        reveal_strlit("/");
        reveal_strlit("_");
        reveal_strlit(".");
        assert(s@ =~= tile_name(out_dir@, stem@, ext@, easting as int, northing as int));
    }
    s
}

/// The final component of a path: everything after the last `/`, or the
/// whole path when it holds none.
pub open spec fn basename_of(p: Seq<char>) -> Seq<char> {
    match p.index_of_last('/') {
        Some(i) => p.subrange(i + 1, p.len() as int),
        None => p,
    }
}

/// The index of the `.` that separates a file name's stem from its
/// extension: the last `.`, provided it is not the name's first character.
pub open spec fn dot_index(name: Seq<char>) -> Option<int> {
    match name.index_of_last('.') {
        Some(i) => if i >= 1 {
            Some(i)
        } else {
            None
        },
        None => None,
    }
}

/// Whether the path's final component splits into a stem and an extension.
pub open spec fn has_stem_ext(p: Seq<char>) -> bool {
    dot_index(basename_of(p)) is Some
}

/// The stem of the path's final component: everything before the
/// separating `.`.
pub open spec fn stem_of(p: Seq<char>) -> Seq<char> {
    basename_of(p).subrange(0, dot_index(basename_of(p)).unwrap())
}

/// The extension of the path's final component: everything after the
/// separating `.`.
pub open spec fn ext_of(p: Seq<char>) -> Seq<char> {
    basename_of(p).subrange(
        dot_index(basename_of(p)).unwrap() + 1,
        basename_of(p).len() as int,
    )
}

/// Split a path into the stem and extension of its final component, or
/// `None` when the final component has no extension (no `.`, or a `.` only
/// as its first character).
pub fn split_stem_ext(path: &str) -> (r: Option<(String, String)>)
    ensures
        r is Some <==> has_stem_ext(path@),
        r matches Some(se) ==> se.0@ == stem_of(path@) && se.1@ == ext_of(path@),
{
    let n = path.unicode_len();
    let mut i: usize = 0;
    let mut start: usize = 0;
    while i < n
        invariant
            n == path@.len(),
            i <= n,
            start <= i,
            start == 0 || path@[start - 1] == '/',
            forall|k: int| start <= k < i ==> path@[k] != '/',
        decreases n - i,
    {
        if path.get_char(i) == '/' {
            start = i + 1;
        }
        i += 1;
    }
    proof {
        path@.index_of_last_ensures('/');
        if start == 0 {
            assert(!path@.contains('/'));
        } else {
            assert(path@.contains('/'));
            let idx = path@.index_of_last('/').unwrap();
            assert(idx == start - 1);
        }
        assert(basename_of(path@) =~= path@.subrange(start as int, n as int));
    }
    let mut j: usize = start;
    let mut dot: usize = 0;
    let mut found = false;
    while j < n
        invariant
            n == path@.len(),
            start <= j,
            found ==> start + 1 <= dot < j && dot < n && path@[dot as int] == '.',
            found ==> forall|k: int| dot < k < j && k < n ==> path@[k] != '.',
            !found ==> forall|k: int| start + 1 <= k < j && k < n ==> path@[k] != '.',
        decreases n - j,
    {
        if j > start && path.get_char(j) == '.' {
            dot = j;
            found = true;
        }
        j += 1;
    }
    let ghost base = basename_of(path@);
    proof {
        base.index_of_last_ensures('.');
    }
    if found {
        proof {
            assert(base[dot - start] == '.');
            assert(base.contains('.')) by {
                assert(0 <= dot - start < base.len() && base[dot - start] == '.');
            }
            let idx = base.index_of_last('.').unwrap();
            assert forall|m: int| dot - start < m < base.len() implies base[m] != '.' by {
                assert(base[m] == path@[start + m]);
            }
            assert(idx == dot - start);
            assert(dot_index(base) == Some(dot - start));
        }
        let stem_s = path.substring_char(start, dot);
        let ext_s = path.substring_char(dot + 1, n);
        proof {
            assert(stem_s@ =~= stem_of(path@));
            assert(ext_s@ =~= ext_of(path@));
        }
        Some((String::from_str(stem_s), String::from_str(ext_s)))
    } else {
        proof {
            if base.index_of_last('.') is Some {
                let idx = base.index_of_last('.').unwrap();
                if idx >= 1 {
                    assert(base[idx] == path@[start + idx]);
                    assert(false);
                }
            }
            assert(!has_stem_ext(path@));
        }
        None
    }
}

} // verus!
