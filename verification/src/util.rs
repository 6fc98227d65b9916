use vstd::prelude::*;
use vstd::string::StrSliceExecFns;
use vstd::string::StringExecFns;

verus! {

/// The image reference ends in the literal tag `:latest`.
pub open spec fn is_latest_image(s: Seq<char>) -> bool {
    s.len() >= 7 && s.skip(s.len() - 7) == ":latest"@
}

/// The image reference carries no tag at all.
pub open spec fn is_untagged_image(s: Seq<char>) -> bool {
    !s.contains(':')
}

pub fn image_has_latest_tag(s: &String) -> (r: bool)
    ensures
        r == is_latest_image(s@),
{
    let n = s.as_str().unicode_len();
    if n < 7 {
        return false;
    }
    let suffix = s.as_str().substring_char(n - 7, n);
    let r = suffix.to_owned().eq(&":latest".to_owned());
    proof {
        assert(s@.subrange(n - 7, n as int) =~= s@.skip(s@.len() - 7));
    }
    r
}

pub fn image_has_colon(s: &String) -> (r: bool)
    ensures
        r == s@.contains(':'),
{
    let n = s.as_str().unicode_len();
    let mut i: usize = 0;
    while i < n
        invariant
            0 <= i <= n,
            n == s@.len(),
            forall|j: int| 0 <= j < i ==> s@[j] != ':',
        decreases n - i,
    {
        if s.as_str().get_char(i) == ':' {
            return true;
        }
        i = i + 1;
    }
    false
}

/// Rewrite of an image reference to carry the explicit `:1.0.0` tag: the
/// `:latest` suffix is replaced, and a missing tag is appended.
pub open spec fn retagged_image(s: Seq<char>) -> Seq<char> {
    if is_latest_image(s) {
        s.take(s.len() - 7) + ":1.0.0"@
    } else {
        s + ":1.0.0"@
    }
}

pub fn retag_image(s: &String) -> (r: String)
    requires
        is_latest_image(s@) || is_untagged_image(s@),
    ensures
        r@ == retagged_image(s@),
{
    let n = s.as_str().unicode_len();
    if image_has_latest_tag(s) {
        let prefix = s.as_str().substring_char(0, n - 7).to_owned();
        let r = prefix.concat(":1.0.0");
        proof {
            assert(s@.subrange(0, s@.len() - 7) =~= s@.take(s@.len() - 7));
        }
        r
    } else {
        let r = s.clone().concat(":1.0.0");
        r
    }
}

/// After a rewrite the image carries a tag and it is not `:latest`.
pub proof fn lemma_retagged_image_is_fixed(s: Seq<char>)
    ensures
        !is_latest_image(retagged_image(s)),
        retagged_image(s).contains(':'),
{
    reveal_strlit(":1.0.0");
    reveal_strlit(":latest");
    let r = retagged_image(s);
    let p = if is_latest_image(s) {
        s.take(s.len() - 7)
    } else {
        s
    };
    assert(r == p + ":1.0.0"@);
    assert(r[p.len() as int] == ':');
    assert(r.contains(':'));
    if r.len() >= 7 {
        assert(r[r.len() - 1] == '0');
        assert(":latest"@[6] == 't');
        if r.skip(r.len() - 7) == ":latest"@ {
            assert(r.skip(r.len() - 7)[6] == r[r.len() - 1]);
        }
    }
}

/// The case-insensitive ASCII match used for file extensions.
pub open spec fn lower_is(c: char, l: char) -> bool {
    c == l || (l == 'y' && c == 'Y') || (l == 'a' && c == 'A') || (l == 'm' && c == 'M') || (l
        == 'l' && c == 'L')
}

pub open spec fn ext_is_yaml(ext: Seq<char>) -> bool {
    ext.len() == 4 && lower_is(ext[0], 'y') && lower_is(ext[1], 'a') && lower_is(ext[2], 'm')
        && lower_is(ext[3], 'l')
}

pub open spec fn ext_is_yml(ext: Seq<char>) -> bool {
    ext.len() == 3 && lower_is(ext[0], 'y') && lower_is(ext[1], 'm') && lower_is(ext[2], 'l')
}

/// Index of the last occurrence of `c` in `s`, or -1.
pub open spec fn rfind_in(s: Seq<char>, c: char) -> int
    decreases s.len(),
{
    if s.len() == 0 {
        -1
    } else if s.last() == c {
        s.len() - 1
    } else {
        rfind_in(s.drop_last(), c)
    }
}

pub proof fn lemma_rfind_in_props(s: Seq<char>, c: char)
    ensures
        rfind_in(s, c) == -1 ==> forall|j: int| 0 <= j < s.len() ==> s[j] != c,
        rfind_in(s, c) != -1 ==> {
            let i = rfind_in(s, c);
            &&& 0 <= i < s.len()
            &&& s[i] == c
            &&& forall|j: int| i < j < s.len() ==> s[j] != c
        },
    decreases s.len(),
{
    if s.len() == 0 {
    } else if s.last() == c {
    } else {
        lemma_rfind_in_props(s.drop_last(), c);
        assert(forall|j: int| 0 <= j < s.len() - 1 ==> s.drop_last()[j] == #[trigger] s[j]);
    }
}

pub proof fn lemma_rfind_in_is(s: Seq<char>, c: char, i: int)
    requires
        0 <= i < s.len(),
        s[i] == c,
        forall|j: int| i < j < s.len() ==> s[j] != c,
    ensures
        rfind_in(s, c) == i,
{
    lemma_rfind_in_props(s, c);
}

pub proof fn lemma_rfind_in_none(s: Seq<char>, c: char)
    requires
        forall|j: int| 0 <= j < s.len() ==> s[j] != c,
    ensures
        rfind_in(s, c) == -1,
{
    lemma_rfind_in_props(s, c);
}

fn rfind_char(s: &String, c: char) -> (r: Option<usize>)
    ensures
        match r {
            Some(i) => i < s@.len() && rfind_in(s@, c) == i as int,
            None => rfind_in(s@, c) == -1,
        },
{
    let n = s.as_str().unicode_len();
    let mut i: usize = n;
    while i > 0
        invariant
            0 <= i <= n,
            n == s@.len(),
            forall|j: int| i <= j < n ==> s@[j] != c,
        decreases i,
    {
        i = i - 1;
        if s.as_str().get_char(i) == c {
            proof {
                lemma_rfind_in_is(s@, c, i as int);
            }
            return Some(i);
        }
    }
    proof {
        lemma_rfind_in_none(s@, c);
    }
    None
}

/// A path names a YAML document when the extension of its final component,
/// compared without ASCII case, is `yaml` or `yml`.
pub open spec fn is_yaml_path(s: Seq<char>) -> bool {
    let fname = s.skip(rfind_in(s, '/') + 1);
    let d = rfind_in(fname, '.');
    d > 0 && {
        let ext = fname.skip(d + 1);
        ext_is_yaml(ext) || ext_is_yml(ext)
    }
}

/// Whether a path points at a Kubernetes manifest file, judged by its
/// `.yaml` / `.yml` extension (any letter case).
pub fn is_kubernetes_file(path: &String) -> (r: bool)
    ensures
        r == is_yaml_path(path@),
{
    let n = path.as_str().unicode_len();
    let start: usize = match rfind_char(path, '/') {
        Some(i) => i + 1,
        None => 0,
    };
    let fname = path.as_str().substring_char(start, n).to_owned();
    proof {
        assert(fname@ =~= path@.skip(rfind_in(path@, '/') + 1));
    }
    let fn_len = fname.as_str().unicode_len();
    let d: usize = match rfind_char(&fname, '.') {
        Some(i) => i,
        None => {
            return false;
        },
    };
    if d == 0 {
        return false;
    }
    let ext = fname.as_str().substring_char(d + 1, fn_len).to_owned();
    proof {
        assert(ext@ =~= fname@.skip(rfind_in(fname@, '.') + 1));
    }
    let e_len = ext.as_str().unicode_len();
    if e_len == 4 {
        let c0 = ext.as_str().get_char(0);
        let c1 = ext.as_str().get_char(1);
        let c2 = ext.as_str().get_char(2);
        let c3 = ext.as_str().get_char(3);
        (c0 == 'y' || c0 == 'Y') && (c1 == 'a' || c1 == 'A') && (c2 == 'm' || c2 == 'M') && (c3
            == 'l' || c3 == 'L')
    } else if e_len == 3 {
        let c0 = ext.as_str().get_char(0);
        let c1 = ext.as_str().get_char(1);
        let c2 = ext.as_str().get_char(2);
        (c0 == 'y' || c0 == 'Y') && (c1 == 'm' || c1 == 'M') && (c2 == 'l' || c2 == 'L')
    } else {
        false
    }
}

/// The decimal digit characters.
pub open spec fn dec_digit(d: int) -> char {
    if d == 0 {
        '0'
    } else if d == 1 {
        '1'
    } else if d == 2 {
        '2'
    } else if d == 3 {
        '3'
    } else if d == 4 {
        '4'
    } else if d == 5 {
        '5'
    } else if d == 6 {
        '6'
    } else if d == 7 {
        '7'
    } else if d == 8 {
        '8'
    } else {
        '9'
    }
}

/// Decimal rendering of a nonnegative number, most significant digit first.
pub open spec fn dec_of(n: int) -> Seq<char>
    decreases n,
{
    if n < 10 {
        seq![dec_digit(n)]
    } else {
        dec_of(n / 10).push(dec_digit(n % 10))
    }
}

fn digit_str(d: u64) -> (r: &'static str)
    requires
        d < 10,
    ensures
        r@ == seq![dec_digit(d as int)],
{
    proof {
        reveal_strlit("0");
        reveal_strlit("1");
        reveal_strlit("2");
        reveal_strlit("3");
        reveal_strlit("4");
        reveal_strlit("5");
        reveal_strlit("6");
        reveal_strlit("7");
        reveal_strlit("8");
        reveal_strlit("9");
        assert("0"@ =~= seq!['0']);
        assert("1"@ =~= seq!['1']);
        assert("2"@ =~= seq!['2']);
        assert("3"@ =~= seq!['3']);
        assert("4"@ =~= seq!['4']);
        assert("5"@ =~= seq!['5']);
        assert("6"@ =~= seq!['6']);
        assert("7"@ =~= seq!['7']);
        assert("8"@ =~= seq!['8']);
        assert("9"@ =~= seq!['9']);
    }
    if d == 0 {
        "0"
    } else if d == 1 {
        "1"
    } else if d == 2 {
        "2"
    } else if d == 3 {
        "3"
    } else if d == 4 {
        "4"
    } else if d == 5 {
        "5"
    } else if d == 6 {
        "6"
    } else if d == 7 {
        "7"
    } else if d == 8 {
        "8"
    } else {
        "9"
    }
}

/// Decimal rendering of a number, digit by digit.
pub fn u64_to_string(n: u64) -> (r: String)
    ensures
        r@ == dec_of(n as int),
    decreases n,
{
    if n < 10 {
        digit_str(n).to_owned()
    } else {
        let prefix = u64_to_string(n / 10);
        let r = prefix.concat(digit_str(n % 10));
        proof {
            assert(r@ =~= dec_of(n as int / 10).push(dec_digit(n as int % 10)));
        }
        r
    }
}

} // verus!
