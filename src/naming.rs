use vstd::prelude::*;

verus! {

/// The decimal digit `d` as a character.
pub open spec fn digit_char(d: int) -> char {
    seq!['0', '1', '2', '3', '4', '5', '6', '7', '8', '9'][d]
}

/// The decimal representation of `n`, without leading zeros.
pub open spec fn decimal(n: nat) -> Seq<char>
    decreases n,
{
    if n < 10 {
        seq![digit_char(n as int)]
    } else {
        decimal(n / 10).push(digit_char((n % 10) as int))
    }
}

/// Position of the last '.' at or before `i` that is not the first character,
/// or the name's length when there is none.
pub open spec fn last_dot_at_or_before(name: Seq<char>, i: int) -> int
    decreases i,
{
    if i <= 0 {
        name.len() as int
    } else if name[i] == '.' {
        i
    } else {
        last_dot_at_or_before(name, i - 1)
    }
}

/// Where the extension of a file name starts: at its last '.', unless that
/// '.' is the first character (a hidden file) or there is none, in which
/// case the extension is empty.
pub open spec fn extension_start(name: Seq<char>) -> int {
    last_dot_at_or_before(name, name.len() - 1)
}

/// The `k`-th name tried for a download called `name`: the name itself, then
/// `stem (k).ext` for k = 1, 2, ...
pub open spec fn download_name(name: Seq<char>, k: nat) -> Seq<char> {
    if k == 0 {
        name
    } else {
        let e = extension_start(name);
        name.subrange(0, e) + seq![' ', '('] + decimal(k) + seq![')'] + name.subrange(
            e,
            name.len() as int,
        )
    }
}

/// The names held by a list of strings.
pub open spec fn names(v: Seq<String>) -> Seq<Seq<char>> {
    v.map_values(|s: String| s@)
}

proof fn lemma_last_dot_bounds(name: Seq<char>, i: int)
    requires
        i < name.len(),
    ensures
        ({
            let r = last_dot_at_or_before(name, i);
            (r == name.len()) || (0 < r <= i && name[r] == '.')
        }),
    decreases i,
{
    if i > 0 && name[i] != '.' {
        lemma_last_dot_bounds(name, i - 1);
    }
}

proof fn lemma_decimal_nonempty(n: nat)
    ensures
        decimal(n).len() >= 1,
    decreases n,
{
    if n >= 10 {
        lemma_decimal_nonempty(n / 10);
    }
}

proof fn lemma_digit_injective(a: int, b: int)
    requires
        0 <= a < 10,
        0 <= b < 10,
        digit_char(a) == digit_char(b),
    ensures
        a == b,
{
}

/// Distinct numbers have distinct decimal representations.
proof fn lemma_decimal_injective(a: nat, b: nat)
    requires
        decimal(a) == decimal(b),
    ensures
        a == b,
    decreases a,
{
    if a < 10 && b < 10 {
        assert(decimal(a) == seq![digit_char(a as int)]);
        assert(decimal(b) == seq![digit_char(b as int)]);
        let sa = seq![digit_char(a as int)];
        let sb = seq![digit_char(b as int)];
        assert(sa[0] == digit_char(a as int));
        assert(sb[0] == digit_char(b as int));
        assert(sa[0] == sb[0]);
        lemma_digit_injective(a as int, b as int);
    } else if a < 10 {
        lemma_decimal_nonempty(b / 10);
        assert(decimal(b).len() == decimal(b / 10).len() + 1);
        assert(decimal(a).len() == 1);
    } else if b < 10 {
        lemma_decimal_nonempty(a / 10);
        assert(decimal(a).len() == decimal(a / 10).len() + 1);
        assert(decimal(b).len() == 1);
    } else {
        let da = decimal(a);
        let db = decimal(b);
        assert(da.last() == db.last());
        lemma_digit_injective((a % 10) as int, (b % 10) as int);
        assert(decimal(a / 10) =~= da.drop_last());
        assert(decimal(b / 10) =~= db.drop_last());
        lemma_decimal_injective(a / 10, b / 10);
        assert(a == 10 * (a / 10) + a % 10);
        assert(b == 10 * (b / 10) + b % 10);
    }
}

/// Different attempts give different names, so the search below never tries
/// a name twice.
pub proof fn lemma_download_names_distinct(name: Seq<char>, j: nat, k: nat)
    requires
        j != k,
    ensures
        download_name(name, j) != download_name(name, k),
{
    let e = extension_start(name);
    if name.len() > 0 {
        lemma_last_dot_bounds(name, name.len() - 1);
    }
    if j > 0 && k > 0 {
        let p = name.subrange(0, e) + seq![' ', '('];
        let s = seq![')'] + name.subrange(e, name.len() as int);
        let nj = download_name(name, j);
        let nk = download_name(name, k);
        assert(nj =~= p + decimal(j) + s);
        assert(nk =~= p + decimal(k) + s);
        if nj == nk {
            assert(decimal(j) =~= nj.subrange(p.len() as int, (p.len() + decimal(j).len()) as int));
            assert(decimal(k) =~= nk.subrange(p.len() as int, (p.len() + decimal(k).len()) as int));
            lemma_decimal_injective(j, k);
        }
    } else if j > 0 {
        lemma_decimal_nonempty(j);
        assert(download_name(name, j).len() > name.len());
    } else {
        lemma_decimal_nonempty(k);
        assert(download_name(name, k).len() > name.len());
    }
}


/// The character string of decimal digit `d`.
fn digit_str(d: u64) -> (r: &'static str)
    requires
        d < 10,
    ensures
        r@ == seq![digit_char(d as int)],
{
    let r = match d {
        0 => "0",
        1 => "1",
        2 => "2",
        3 => "3",
        4 => "4",
        5 => "5",
        6 => "6",
        7 => "7",
        8 => "8",
        _ => "9",
    };
    proof {
        reveal_strlit("0");
        reveal_strlit("1");
        reveal_strlit("2");
        reveal_strlit("3");
        reveal_strlit("4");
        reveal_strlit("5");
        reveal_strlit("6");
        reveal_strlit("7");
        reveal_strlit("8");
        reveal_strlit("9");
        assert(r@ =~= seq![digit_char(d as int)]);
    }
    r
}

/// Appends the decimal representation of `n` to `s`.
fn push_decimal(s: &mut String, n: u64)
    ensures
        final(s)@ == old(s)@ + decimal(n as nat),
    decreases n,
{
    if n >= 10 {
        push_decimal(s, n / 10);
    }
    s.append(digit_str(n % 10));
    proof {
        if n >= 10 {
            assert(decimal(n as nat) == decimal((n / 10) as nat).push(digit_char((n % 10) as int)));
        }
        assert(final(s)@ =~= old(s)@ + decimal(n as nat));
    }
}

/// Finds where the extension of `name` starts (see `extension_start`).
fn find_extension_start(name: &str) -> (r: usize)
    ensures
        r as int == extension_start(name@),
        r <= name@.len(),
{
    let len = name.unicode_len();
    if len == 0 {
        return 0;
    }
    let mut i: usize = len - 1;
    while i > 0
        invariant
            len == name@.len(),
            i < len,
            last_dot_at_or_before(name@, i as int) == extension_start(name@),
        decreases i,
    {
        if name.get_char(i) == '.' {
            proof {
                lemma_last_dot_bounds(name@, i as int);
            }
            return i;
        }
        i = i - 1;
    }
    len
}

/// Builds `download_name(name, k)`, given where the extension of `name` starts.
fn build_download_name(name: &str, ext: usize, k: u64) -> (r: String)
    requires
        ext as int == extension_start(name@),
        ext <= name@.len(),
    ensures
        r@ == download_name(name@, k as nat),
{
    if k == 0 {
        return String::from_str(name);
    }
    let mut r = String::from_str(name.substring_char(0, ext));
    r.append(" (");
    push_decimal(&mut r, k);
    r.append(")");
    r.append(name.substring_char(ext, name.unicode_len()));
    proof {
        reveal_strlit(" (");
        reveal_strlit(")");
        assert(r@ =~= download_name(name@, k as nat));
    }
    r
}

proof fn lemma_names_contains(v: Seq<String>, m: int)
    requires
        0 <= m < v.len(),
    ensures
        names(v).contains(v[m]@),
{
    assert(names(v)[m] == v[m]@);
}

/// A copy of a list of strings.
fn copy_strings(v: &Vec<String>) -> (r: Vec<String>)
    ensures
        r@ == v@,
{
    let mut r: Vec<String> = Vec::new();
    let mut i: usize = 0;
    while i < v.len()
        invariant
            i <= v.len(),
            r@ == v@.subrange(0, i as int),
        decreases v.len() - i,
    {
        r.push(v[i].clone());
        i = i + 1;
        assert(r@ =~= v@.subrange(0, i as int));
    }
    assert(r@ =~= v@);
    r
}

/// The name under which a download called `filename` is saved, given the
/// names already present in the target directory: the first of
/// `download_name(filename, 0)`, `download_name(filename, 1)`, ... that is
/// not among them. An existing file is therefore never overwritten.
pub fn unused_file_name(filename: &str, existing: &Vec<String>) -> (r: String)
    ensures
        !names(existing@).contains(r@),
        exists|k: nat|
            r@ == download_name(filename@, k) && forall|j: nat|
                j < k ==> names(existing@).contains(#[trigger] download_name(filename@, j)),
{
    let ext = find_extension_start(filename);
    let ghost taken = names(existing@);
    let mut remaining: Vec<String> = copy_strings(existing);
    let mut k: u64 = 0;
    proof {
        assert forall|i: int| 0 <= i < existing.len() implies names(remaining@).contains(
            #[trigger] existing@[i]@,
        ) by {
            lemma_names_contains(remaining@, i);
        };
        assert forall|m: int| 0 <= m < remaining.len() implies taken.contains(
            #[trigger] remaining@[m]@,
        ) by {
            lemma_names_contains(existing@, m);
        };
    }
    loop
        invariant
            ext as int == extension_start(filename@),
            ext <= filename@.len(),
            taken == names(existing@),
            k + remaining.len() <= existing.len(),
            forall|m: int| 0 <= m < remaining.len() ==> taken.contains(#[trigger] remaining@[m]@),
            forall|i: int|
                0 <= i < existing.len() ==> names(remaining@).contains(#[trigger] existing@[i]@)
                    || exists|j: nat| j < k && existing@[i]@ == download_name(filename@, j),
            forall|j: nat| j < k ==> taken.contains(#[trigger] download_name(filename@, j)),
        decreases remaining.len(),
    {
        let candidate = build_download_name(filename, ext, k);
        let mut kept: Vec<String> = Vec::new();
        let mut found = false;
        let mut i: usize = 0;
        while i < remaining.len()
            invariant
                i <= remaining.len(),
                forall|m: int| 0 <= m < remaining.len() ==> taken.contains(#[trigger] remaining@[m]@),
                kept.len() + (if found { 1int } else { 0int }) <= i,
                found ==> taken.contains(candidate@),
                forall|m: int| 0 <= m < kept.len() ==> taken.contains(#[trigger] kept@[m]@),
                forall|m: int|
                    0 <= m < i && remaining@[m]@ != candidate@ ==> names(kept@).contains(
                        #[trigger] remaining@[m]@,
                    ),
                !found ==> forall|m: int| 0 <= m < i ==> #[trigger] remaining@[m]@ != candidate@,
            decreases remaining.len() - i,
        {
            if remaining[i] == candidate {
                found = true;
            } else {
                let ghost before = kept@;
                kept.push(remaining[i].clone());
                proof {
                    assert forall|m: int|
                        0 <= m < i + 1 && remaining@[m]@ != candidate@ implies names(
                        kept@,
                    ).contains(#[trigger] remaining@[m]@) by {
                        if m < i {
                            let w = choose|w: int| 0 <= w < before.len() && names(before)[w] == remaining@[m]@;
                            assert(kept@[w] == before[w]);
                            lemma_names_contains(kept@, w);
                        } else {
                            lemma_names_contains(kept@, before.len() as int);
                        }
                    };
                }
            }
            i = i + 1;
        }
        if !found {
            proof {
                if taken.contains(candidate@) {
                    let i = choose|i: int| 0 <= i < taken.len() && taken[i] == candidate@;
                    assert(existing@[i]@ == candidate@);
                    if names(remaining@).contains(existing@[i]@) {
                        let m = choose|m: int| 0 <= m < remaining.len() && names(remaining@)[m] == existing@[i]@;
                        assert(remaining@[m]@ == candidate@);
                    } else {
                        let j = choose|j: nat| j < k && existing@[i]@ == download_name(filename@, j);
                        lemma_download_names_distinct(filename@, j, k as nat);
                    }
                }
            }
            return candidate;
        }
        proof {
            assert forall|ii: int| 0 <= ii < existing.len() implies names(kept@).contains(
                #[trigger] existing@[ii]@,
            ) || exists|j: nat| j < k + 1 && existing@[ii]@ == download_name(filename@, j) by {
                if names(remaining@).contains(existing@[ii]@) {
                    let m = choose|m: int| 0 <= m < remaining.len() && names(remaining@)[m] == existing@[ii]@;
                    if remaining@[m]@ == candidate@ {
                        assert(existing@[ii]@ == download_name(filename@, k as nat));
                    }
                } else {
                    let j = choose|j: nat| j < k && existing@[ii]@ == download_name(filename@, j);
                    assert(j < k + 1);
                }
            };
        }
        remaining = kept;
        k = k + 1;
    }
}
} // verus!
