//! The installed-package report of a live Android device.
//!
//! Two listings arrive: every package, and the system packages.
//! Each line of interest carries a `package:` prefix. The report
//! flags each package found in the system listing and orders the
//! result: third-party packages first, then system packages, each
//! group by name.

use vstd::prelude::*;
use vstd::string::*;
use crate::model::PackageInfo;
use crate::text::{
    after_prefix, contains_string, has_prefix, lines_spec, split_lines, starts_with, trim,
    trim_spec, views,
};

verus! {

/// The package names of a listing: the text after `package:` on
/// every line that carries the prefix, trimmed.
pub open spec fn package_names_from(lines: Seq<Seq<char>>) -> Seq<Seq<char>>
    decreases lines.len(),
{
    if lines.len() == 0 {
        Seq::empty()
    } else {
        let pre = package_names_from(lines.drop_last());
        let l = lines.last();
        if has_prefix(l, "package:"@) {
            pre.push(trim_spec(l.skip("package:"@.len() as int)))
        } else {
            pre
        }
    }
}

/// Parses a package listing into the package names, in listing order.
pub fn parse_package_names(out: &str) -> (r: Vec<String>)
    ensures
        views(r@) == package_names_from(lines_spec(out@)),
{
    let lines = split_lines(out);
    let lv = Ghost(views(lines@));
    let mut names: Vec<String> = Vec::new();
    let mut i: usize = 0;
    proof {
        assert(lv@.take(0) =~= Seq::<Seq<char>>::empty());
    }
    while i < lines.len()
        invariant
            0 <= i <= lines@.len(),
            lv@ == views(lines@),
            views(names@) == package_names_from(lv@.take(i as int)),
        decreases lines@.len() - i,
    {
        proof {
            assert(lv@.take(i + 1).drop_last() =~= lv@.take(i as int));
            assert(lv@.take(i + 1).last() == lv@[i as int]);
            assert(lv@[i as int] == lines@[i as int]@);
        }
        let line = lines[i].as_str();
        if starts_with(line, "package:") {
            let rest = after_prefix(line, "package:");
            let name = trim(rest.as_str());
            proof {
                assert(views(names@.push(name)) =~= views(names@).push(name@));
            }
            names.push(name);
        }
        i = i + 1;
    }
    proof {
        assert(lv@.take(lines@.len() as int) =~= lv@);
    }
    names
}

/// Character-scalar lexicographic order on text.
pub open spec fn lex_leq(a: Seq<char>, b: Seq<char>) -> bool
    decreases a.len(),
{
    if a.len() == 0 {
        true
    } else if b.len() == 0 {
        false
    } else if (a[0] as u32) == (b[0] as u32) {
        lex_leq(a.skip(1), b.skip(1))
    } else {
        (a[0] as u32) < (b[0] as u32)
    }
}

proof fn lemma_lex_refl(a: Seq<char>)
    ensures
        lex_leq(a, a),
    decreases a.len(),
{
    if a.len() > 0 {
        lemma_lex_refl(a.skip(1));
    }
}

proof fn lemma_lex_total(a: Seq<char>, b: Seq<char>)
    ensures
        lex_leq(a, b) || lex_leq(b, a),
    decreases a.len(),
{
    if a.len() > 0 && b.len() > 0 && (a[0] as u32) == (b[0] as u32) {
        lemma_lex_total(a.skip(1), b.skip(1));
    }
}

proof fn lemma_lex_trans(a: Seq<char>, b: Seq<char>, c: Seq<char>)
    requires
        lex_leq(a, b),
        lex_leq(b, c),
    ensures
        lex_leq(a, c),
    decreases a.len(),
{
    if a.len() > 0 && b.len() > 0 && c.len() > 0 {
        if (a[0] as u32) == (b[0] as u32) && (b[0] as u32) == (c[0] as u32) {
            lemma_lex_trans(a.skip(1), b.skip(1), c.skip(1));
        }
    }
}

/// Runtime lexicographic comparison.
fn lex_leq_str(a: &str, b: &str) -> (r: bool)
    ensures
        r == lex_leq(a@, b@),
{
    let an = a.unicode_len();
    let bn = b.unicode_len();
    let mut i: usize = 0;
    proof {
        assert(a@.skip(0) =~= a@);
        assert(b@.skip(0) =~= b@);
    }
    while i < an && i < bn
        invariant
            0 <= i <= an == a@.len(),
            i <= bn == b@.len(),
            forall|k: int| 0 <= k < i ==> (#[trigger] a@[k] as u32) == (b@[k] as u32),
            lex_leq(a@, b@) == lex_leq(a@.skip(i as int), b@.skip(i as int)),
        decreases an - i,
    {
        let ca = a.get_char(i);
        let cb = b.get_char(i);
        proof {
            assert(a@.skip(i as int)[0] == a@[i as int]);
            assert(b@.skip(i as int)[0] == b@[i as int]);
            assert(a@.skip(i as int).skip(1) =~= a@.skip(i + 1));
            assert(b@.skip(i as int).skip(1) =~= b@.skip(i + 1));
        }
        if (ca as u32) != (cb as u32) {
            return (ca as u32) < (cb as u32);
        }
        i = i + 1;
    }
    proof {
        if i == an {
            assert(a@.skip(i as int).len() == 0);
        } else {
            assert(b@.skip(i as int).len() == 0);
            assert(a@.skip(i as int).len() > 0);
        }
    }
    an <= bn
}

/// The report order: third-party packages before system packages,
/// then by name.
pub open spec fn pkg_leq(a: PackageInfo, b: PackageInfo) -> bool {
    if a.is_system != b.is_system {
        !a.is_system
    } else {
        lex_leq(a.name@, b.name@)
    }
}

proof fn lemma_pkg_refl(a: PackageInfo)
    ensures
        pkg_leq(a, a),
{
    lemma_lex_refl(a.name@);
}

proof fn lemma_pkg_total(a: PackageInfo, b: PackageInfo)
    ensures
        pkg_leq(a, b) || pkg_leq(b, a),
{
    lemma_lex_total(a.name@, b.name@);
}

proof fn lemma_pkg_trans(a: PackageInfo, b: PackageInfo, c: PackageInfo)
    requires
        pkg_leq(a, b),
        pkg_leq(b, c),
    ensures
        pkg_leq(a, c),
{
    if a.is_system == b.is_system && b.is_system == c.is_system {
        lemma_lex_trans(a.name@, b.name@, c.name@);
    }
}

/// Runtime comparison in report order.
fn pkg_leq_exec(a: &PackageInfo, b: &PackageInfo) -> (r: bool)
    ensures
        r == pkg_leq(*a, *b),
{
    if a.is_system != b.is_system {
        !a.is_system
    } else {
        lex_leq_str(a.name.as_str(), b.name.as_str())
    }
}

/// Whether the packages stand in report order.
pub open spec fn pkgs_sorted(s: Seq<PackageInfo>) -> bool {
    forall|i: int, j: int| 0 <= i < j < s.len() ==> pkg_leq(#[trigger] s[i], #[trigger] s[j])
}

/// Each package reduced to its observable content.
pub open spec fn pkg_views(s: Seq<PackageInfo>) -> Seq<(Seq<char>, bool)> {
    s.map_values(|p: PackageInfo| (p.name@, p.is_system))
}

/// Sorts packages into report order; the result holds exactly the
/// packages given.
pub fn sort_packages(v: Vec<PackageInfo>) -> (r: Vec<PackageInfo>)
    ensures
        pkgs_sorted(r@),
        pkg_views(r@).to_multiset() == pkg_views(v@).to_multiset(),
{
    broadcast use vstd::seq_lib::group_to_multiset_ensures;
    broadcast use vstd::multiset::group_multiset_axioms;

    let ghost orig = v@;
    let mut rest = v;
    let mut out: Vec<PackageInfo> = Vec::new();
    while rest.len() > 0
        invariant
            pkgs_sorted(out@),
            forall|i: int, k: int|
                0 <= i < out@.len() && 0 <= k < rest@.len() ==> pkg_leq(
                    #[trigger] out@[i],
                    #[trigger] rest@[k],
                ),
            pkg_views(out@).to_multiset().add(pkg_views(rest@).to_multiset()) == pkg_views(
                orig,
            ).to_multiset(),
        decreases rest@.len(),
    {
        let mut m: usize = 0;
        let mut k: usize = 1;
        proof {
            lemma_pkg_refl(rest@[0]);
        }
        while k < rest.len()
            invariant
                0 <= m < k <= rest@.len(),
                forall|q: int| 0 <= q < k ==> pkg_leq(rest@[m as int], #[trigger] rest@[q]),
            decreases rest@.len() - k,
        {
            if !pkg_leq_exec(&rest[m], &rest[k]) {
                proof {
                    lemma_pkg_total(rest@[m as int], rest@[k as int]);
                    assert forall|q: int|
                        0 <= q < k + 1 implies pkg_leq(rest@[k as int], #[trigger] rest@[q]) by {
                        if q < k {
                            lemma_pkg_trans(rest@[k as int], rest@[m as int], rest@[q]);
                        } else {
                            lemma_pkg_refl(rest@[k as int]);
                        }
                    }
                }
                m = k;
            }
            k = k + 1;
        }
        let ghost pre = rest@;
        let x = rest.remove(m);
        proof {
            assert forall|i: int, j: int|
                0 <= i < j < out@.push(x).len() implies pkg_leq(
                #[trigger] out@.push(x)[i],
                #[trigger] out@.push(x)[j],
            ) by {
                if j < out@.len() {
                } else {
                    assert(out@.push(x)[j] == x);
                    assert(out@.push(x)[i] == out@[i]);
                    assert(pkg_leq(out@[i], pre[m as int]));
                }
            }
            assert forall|i: int, k2: int|
                0 <= i < out@.push(x).len() && 0 <= k2 < rest@.len() implies pkg_leq(
                #[trigger] out@.push(x)[i],
                #[trigger] rest@[k2],
            ) by {
                let elem = rest@[k2];
                assert(pre.remove(m as int)[k2] == elem);
                if k2 < m {
                    assert(elem == pre[k2]);
                } else {
                    assert(elem == pre[k2 + 1]);
                }
                if i < out@.len() {
                } else {
                    assert(out@.push(x)[i] == x);
                }
            }
            assert(pkg_views(pre).len() == pre.len());
            assert(pkg_views(pre.remove(m as int)) =~= pkg_views(pre).remove(m as int));
            let xv = (x.name@, x.is_system);
            assert(pkg_views(pre)[m as int] == xv);
            vstd::seq_lib::to_multiset_remove(pkg_views(pre), m as int);
            vstd::seq_lib::to_multiset_build(pkg_views(out@), xv);
            assert(pkg_views(out@.push(x)) =~= pkg_views(out@).push(xv));
            assert(pkg_views(pre).contains(xv));
            vstd::seq_lib::to_multiset_contains(pkg_views(pre), xv);
            assert(pkg_views(pre).to_multiset().count(xv) > 0);
            let m_out = pkg_views(out@).to_multiset();
            let m_pre = pkg_views(pre).to_multiset();
            assert(pkg_views(out@.push(x)).to_multiset().add(pkg_views(rest@).to_multiset())
                =~= m_out.insert(xv).add(m_pre.remove(xv)));
            assert forall|e: (Seq<char>, bool)|
                m_out.insert(xv).add(m_pre.remove(xv)).count(e) == m_out.add(m_pre).count(
                e,
            ) by {}
            assert(m_out.insert(xv).add(m_pre.remove(xv)) =~= m_out.add(m_pre));
            assert(pkg_views(out@.push(x)).to_multiset().add(
                pkg_views(rest@).to_multiset(),
            ) =~= pkg_views(orig).to_multiset());
        }
        out.push(x);
    }
    out
}

/// What the report holds before sorting: one entry per name of the
/// full listing, flagged as system exactly when the name occurs in
/// the system listing.
pub open spec fn expected_pkg_views(all: Seq<Seq<char>>, sys: Seq<Seq<char>>) -> Seq<
    (Seq<char>, bool),
> {
    all.map_values(|n: Seq<char>| (n, sys.contains(n)))
}

/// Builds the package report from the two captured listings: every
/// package of the full listing, flagged against the system listing,
/// in report order.
pub fn get_device_packages(all_out: &str, system_out: &str) -> (r: Vec<PackageInfo>)
    ensures
        pkgs_sorted(r@),
        pkg_views(r@).to_multiset() == expected_pkg_views(
            package_names_from(lines_spec(all_out@)),
            package_names_from(lines_spec(system_out@)),
        ).to_multiset(),
{
    let names = parse_package_names(all_out);
    let sys_names = parse_package_names(system_out);
    let ghost all = package_names_from(lines_spec(all_out@));
    let ghost sys = package_names_from(lines_spec(system_out@));
    let mut unsorted: Vec<PackageInfo> = Vec::new();
    let mut i: usize = 0;
    while i < names.len()
        invariant
            0 <= i <= names@.len(),
            views(names@) == all,
            views(sys_names@) == sys,
            pkg_views(unsorted@) == expected_pkg_views(all, sys).take(i as int),
        decreases names@.len() - i,
    {
        let is_system = contains_string(&sys_names, names[i].as_str());
        let name = names[i].clone();
        let p = PackageInfo { name, is_system };
        proof {
            assert(views(names@)[i as int] == names@[i as int]@);
            let lhs = pkg_views(unsorted@.push(p));
            let rhs = expected_pkg_views(all, sys).take(i + 1);
            assert(pkg_views(unsorted@).len() == i);
            assert(lhs.len() == rhs.len());
            assert forall|q: int| 0 <= q < lhs.len() implies lhs[q] == rhs[q] by {
                assert(rhs[q] == expected_pkg_views(all, sys)[q]);
                if q < i {
                    assert(lhs[q] == pkg_views(unsorted@)[q]);
                    assert(pkg_views(unsorted@)[q] == expected_pkg_views(all, sys).take(
                        i as int,
                    )[q]);
                } else {
                    assert(lhs[q] == (p.name@, p.is_system));
                }
            }
            assert(lhs =~= rhs);
        }
        unsorted.push(p);
        i = i + 1;
    }
    proof {
        assert(expected_pkg_views(all, sys).take(all.len() as int) =~= expected_pkg_views(
            all,
            sys,
        ));
    }
    sort_packages(unsorted)
}

} // verus!
