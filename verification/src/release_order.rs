//! Orders an application's versions newest first by semantic-version
//! precedence. Versions are parsed and compared by the `semver` crate; a
//! version string that does not parse ranks as `0.0.0`.

use vstd::prelude::*;

verus! {

#[verifier::external_type_specification]
#[verifier::external_body]
pub struct ExSemverVersion(semver::Version);

/// The parts of a semantic version as plain values: major, minor, patch,
/// pre-release and build metadata.
pub type SemVerParts = (u64, u64, u64, Seq<char>, Seq<char>);

/// A parsed semantic version. Only the trusted constructors below build one,
/// so its parts always describe the `semver::Version` it carries.
pub struct SemVer {
    major: u64,
    minor: u64,
    patch: u64,
    pre: String,
    build: String,
    version: semver::Version,
}

impl View for SemVer {
    type V = SemVerParts;

    closed spec fn view(&self) -> SemVerParts {
        (self.major, self.minor, self.patch, self.pre@, self.build@)
    }
}

/// What `semver::Version::parse` gives for a string, by its parts.
pub uninterp spec fn semver_parse(text: Seq<char>) -> Option<SemVerParts>;

/// Precedence of two versions as `Ord` for `semver::Version` decides it:
/// -1 when the first is lower, 0 when equal, 1 when higher.
pub uninterp spec fn semver_order(a: SemVerParts, b: SemVerParts) -> int;

/// Parses a version (`semver::Version::parse`). Claimed: the result is the
/// named parse of `text`, taken apart field by field.
#[verifier::external_body]
fn parse_semver(text: &str) -> (r: Option<SemVer>)
    ensures
        match r {
            Some(v) => semver_parse(text@) == Some(v@),
            None => semver_parse(text@) is None,
        },
{
    match semver::Version::parse(text) {
        Ok(v) => Some(SemVer {
            major: v.major,
            minor: v.minor,
            patch: v.patch,
            pre: v.pre.as_str().to_string(),
            build: v.build.as_str().to_string(),
            version: v,
        }),
        Err(_) => None,
    }
}

/// The version `0.0.0` (`semver::Version::new(0, 0, 0)`), which has an empty
/// pre-release and empty build metadata.
#[verifier::external_body]
fn semver_zero() -> (r: SemVer)
    ensures
        r@ == (0u64, 0u64, 0u64, Seq::<char>::empty(), Seq::<char>::empty()),
{
    let v = semver::Version::new(0, 0, 0);
    SemVer {
        major: v.major,
        minor: v.minor,
        patch: v.patch,
        pre: v.pre.as_str().to_string(),
        build: v.build.as_str().to_string(),
        version: v,
    }
}

/// Compares two versions by `Ord` for `semver::Version`. Claimed: the result
/// is the named precedence, one of -1, 0, 1; and, as the derived order of the
/// struct's fields and the pre-release order of the crate's source show,
/// major, minor and patch decide first, in that order, then a release ranks
/// above any pre-release of the same numbers; identical versions are equal;
/// and, as `Ord` requires and the crate's orders keep, comparing the other way
/// round gives the opposite answer.
#[verifier::external_body]
fn compare_semver(a: &SemVer, b: &SemVer) -> (r: i8)
    ensures
        r == semver_order(a@, b@),
        -1 <= r <= 1,
        a@.0 < b@.0 ==> r == -1,
        a@.0 > b@.0 ==> r == 1,
        a@.0 == b@.0 && a@.1 < b@.1 ==> r == -1,
        a@.0 == b@.0 && a@.1 > b@.1 ==> r == 1,
        a@.0 == b@.0 && a@.1 == b@.1 && a@.2 < b@.2 ==> r == -1,
        a@.0 == b@.0 && a@.1 == b@.1 && a@.2 > b@.2 ==> r == 1,
        a@.0 == b@.0 && a@.1 == b@.1 && a@.2 == b@.2 && a@.3.len() == 0 && b@.3.len() > 0 ==> r == 1,
        a@.0 == b@.0 && a@.1 == b@.1 && a@.2 == b@.2 && a@.3.len() > 0 && b@.3.len() == 0 ==> r == -1,
        a@ == b@ ==> r == 0,
        semver_order(b@, a@) == -r,
{
    match a.version.cmp(&b.version) {
        std::cmp::Ordering::Less => -1,
        std::cmp::Ordering::Equal => 0,
        std::cmp::Ordering::Greater => 1,
    }
}

/// The rank of a version string: its parse, or `0.0.0` when it does not parse.
pub open spec fn release_key(version: Seq<char>) -> SemVerParts {
    match semver_parse(version) {
        Some(v) => v,
        None => (0u64, 0u64, 0u64, Seq::<char>::empty(), Seq::<char>::empty()),
    }
}

/// Ranks a version string as `Version::from_str(v).unwrap_or(0.0.0)` does.
pub fn rank_version(version: &str) -> (r: SemVer)
    ensures
        r@ == release_key(version@),
{
    match parse_semver(version) {
        Some(v) => v,
        None => semver_zero(),
    }
}

/// One stored version as a list shows it: version string, changelog, date.
#[derive(Debug)]
pub struct VersionRow {
    pub version: String,
    pub changelog: String,
    pub date: u64,
}

/// A version row by its plain values.
pub type RowView = (Seq<char>, Seq<char>, u64);

impl View for VersionRow {
    type V = RowView;

    open spec fn view(&self) -> RowView {
        (self.version@, self.changelog@, self.date)
    }
}

/// Inserts `x` into a list ordered newest first, after every entry that does
/// not rank strictly below it (so that equal ranks keep their order).
pub open spec fn insert_newest_first(s: Seq<RowView>, x: RowView) -> Seq<RowView>
    decreases s.len(),
{
    if s.len() == 0 {
        seq![x]
    } else if semver_order(release_key(x.0), release_key(s.last().0)) == 1 {
        insert_newest_first(s.drop_last(), x).push(s.last())
    } else {
        s.push(x)
    }
}

/// The stable sort of rows newest first by version precedence, which is what
/// `sort_by(|a, b| b.cmp(a))` on the ranks computes.
pub open spec fn sort_newest_first(s: Seq<RowView>) -> Seq<RowView>
    decreases s.len(),
{
    if s.len() == 0 {
        seq![]
    } else {
        insert_newest_first(sort_newest_first(s.drop_last()), s.last())
    }
}

proof fn lemma_insert_multiset(s: Seq<RowView>, x: RowView)
    ensures
        insert_newest_first(s, x).to_multiset() =~= s.to_multiset().insert(x),
    decreases s.len(),
{
    broadcast use vstd::seq_lib::group_to_multiset_ensures;
    if s.len() == 0 {
        assert(seq![x] =~= Seq::<RowView>::empty().push(x));
    } else if semver_order(release_key(x.0), release_key(s.last().0)) == 1 {
        lemma_insert_multiset(s.drop_last(), x);
        assert(s =~= s.drop_last().push(s.last()));
    }
}

/// Law: sorting keeps exactly the rows it was given, each as often.
pub proof fn law_sort_is_permutation(s: Seq<RowView>)
    ensures
        sort_newest_first(s).to_multiset() =~= s.to_multiset(),
    decreases s.len(),
{
    broadcast use vstd::seq_lib::group_to_multiset_ensures;
    if s.len() > 0 {
        law_sort_is_permutation(s.drop_last());
        lemma_insert_multiset(sort_newest_first(s.drop_last()), s.last());
        assert(s =~= s.drop_last().push(s.last()));
    }
}

/// Law: a list whose versions all rank equal keeps its order.
pub proof fn law_sort_keeps_ties(s: Seq<RowView>)
    requires
        forall|i: int, j: int|
            0 <= i < s.len() && 0 <= j < s.len() ==> semver_order(
                release_key(#[trigger] s[i].0),
                release_key(#[trigger] s[j].0),
            ) == 0,
    ensures
        sort_newest_first(s) == s,
    decreases s.len(),
{
    if s.len() > 0 {
        let t = s.drop_last();
        assert forall|i: int, j: int|
            0 <= i < t.len() && 0 <= j < t.len() implies semver_order(
                release_key(#[trigger] t[i].0),
                release_key(#[trigger] t[j].0),
            ) == 0 by {
            assert(t[i] == s[i] && t[j] == s[j]);
        }
        law_sort_keeps_ties(t);
        if t.len() > 0 {
            assert(t.last() == s[s.len() - 2]);
            assert(semver_order(release_key(s.last().0), release_key(s[s.len() - 2].0)) == 0);
        }
        assert(s =~= t.push(s.last()));
    }
}

/// Rows by their plain values.
pub open spec fn row_views(rows: Seq<VersionRow>) -> Seq<RowView> {
    rows.map_values(|x: VersionRow| x@)
}

/// Whether no row ranks strictly above the row before it: the list runs
/// newest first.
pub open spec fn ranks_newest_first(s: Seq<RowView>) -> bool {
    forall|a: int, b: int|
        0 <= a && b == a + 1 && b < s.len() ==> semver_order(
            release_key(#[trigger] s[b].0),
            release_key(#[trigger] s[a].0),
        ) != 1
}

/// Whether `out` holds the rows of `inp` in the order `p` picks them (each
/// row once), and rows that rank equal keep the order they had in `inp`.
pub open spec fn stable_permutation(out: Seq<RowView>, inp: Seq<RowView>, p: Seq<int>) -> bool {
    &&& p.len() == out.len()
    &&& out.len() == inp.len()
    &&& forall|k: int| 0 <= k < p.len() ==> 0 <= #[trigger] p[k] < inp.len() && out[k] == inp[p[k]]
    &&& forall|a: int, b: int| 0 <= a < b < p.len() ==> #[trigger] p[a] != #[trigger] p[b]
    &&& forall|a: int, b: int|
        0 <= a < b < p.len() && semver_order(release_key(#[trigger] out[a].0), release_key(#[trigger] out[b].0))
            == 0 ==> p[a] < p[b]
}

/// Inserting the row with original index `i` at the place the sort finds
/// keeps the list newest first and keeps rows that rank equal in order.
proof fn lemma_insert_keeps_order(s: Seq<RowView>, ps: Seq<int>, x: RowView, i: int, j: int, orig: Seq<RowView>)
    requires
        0 <= j <= s.len(),
        ps.len() == s.len(),
        s.len() == i,
        i < orig.len(),
        x == orig[i],
        ranks_newest_first(s),
        forall|k: int| 0 <= k < ps.len() ==> 0 <= #[trigger] ps[k] < i && s[k] == orig[ps[k]],
        forall|a: int, b: int| 0 <= a < b < ps.len() ==> #[trigger] ps[a] != #[trigger] ps[b],
        forall|a: int, b: int|
            0 <= a < b < ps.len() && semver_order(
                release_key(#[trigger] s[a].0),
                release_key(#[trigger] s[b].0),
            ) == 0 ==> ps[a] < ps[b],
        j == 0 || semver_order(release_key(x.0), release_key(s[j - 1].0)) != 1,
        forall|m: int| j <= m < s.len() ==> semver_order(release_key(x.0), release_key(#[trigger] s[m].0)) == 1
            && semver_order(release_key(s[m].0), release_key(x.0)) == -1,
    ensures
        ({
            let ns = s.insert(j, x);
            let np = ps.insert(j, i);
            &&& ranks_newest_first(ns)
            &&& np.len() == ns.len()
            &&& forall|k: int| 0 <= k < np.len() ==> 0 <= #[trigger] np[k] < i + 1 && ns[k] == orig[np[k]]
            &&& forall|a: int, b: int| 0 <= a < b < np.len() ==> #[trigger] np[a] != #[trigger] np[b]
            &&& forall|a: int, b: int|
                0 <= a < b < np.len() && semver_order(
                    release_key(#[trigger] ns[a].0),
                    release_key(#[trigger] ns[b].0),
                ) == 0 ==> np[a] < np[b]
        }),
{
    let ns = s.insert(j, x);
    let np = ps.insert(j, i);
    let kx = release_key(x.0);
    // where each entry of the new list comes from
    assert forall|k: int| 0 <= k < ns.len() implies #[trigger] ns[k] == (if k < j { s[k] } else if k
        == j { x } else { s[k - 1] }) && np[k] == (if k < j { ps[k] } else if k == j { i } else {
        ps[k - 1]
    }) by {}
    assert forall|a: int, b: int|
        0 <= a && b == a + 1 && b < ns.len() implies semver_order(
        release_key(#[trigger] ns[b].0),
        release_key(#[trigger] ns[a].0),
    ) != 1 by {
        assert(ns[a] == (if a < j { s[a] } else if a == j { x } else { s[a - 1] }));
        assert(ns[b] == (if b < j { s[b] } else if b == j { x } else { s[b - 1] }));
        if b < j {
            assert(semver_order(release_key(s[b].0), release_key(s[a].0)) != 1);
        } else if b == j {
        } else if a == j {
            assert(semver_order(release_key(s[a].0), kx) == -1);
        } else {
            assert(semver_order(release_key(s[b - 1].0), release_key(s[a - 1].0)) != 1);
        }
    }
    assert forall|k: int| 0 <= k < np.len() implies 0 <= #[trigger] np[k] < i + 1 && ns[k]
        == orig[np[k]] by {
        assert(ns[k] == (if k < j { s[k] } else if k == j { x } else { s[k - 1] }));
        assert(np[k] == (if k < j { ps[k] } else if k == j { i } else { ps[k - 1] }));
        if k < j {
            assert(0 <= ps[k] < i);
        } else if k > j {
            assert(0 <= ps[k - 1] < i);
        }
    }
    assert forall|a: int, b: int| 0 <= a < b < np.len() implies #[trigger] np[a] != #[trigger] np[b] by {
        assert(np[a] == (if a < j { ps[a] } else if a == j { i } else { ps[a - 1] }));
        assert(np[b] == (if b < j { ps[b] } else if b == j { i } else { ps[b - 1] }));
        if a != j && b != j {
            let a2 = if a < j { a } else { a - 1 };
            let b2 = if b < j { b } else { b - 1 };
            assert(ps[a2] != ps[b2]);
        } else if a == j {
            assert(0 <= ps[b - 1] < i);
        } else {
            assert(0 <= ps[a] < i);
        }
    }
    assert forall|a: int, b: int|
        0 <= a < b < np.len() && semver_order(
            release_key(#[trigger] ns[a].0),
            release_key(#[trigger] ns[b].0),
        ) == 0 implies np[a] < np[b] by {
        assert(ns[a] == (if a < j { s[a] } else if a == j { x } else { s[a - 1] }));
        assert(ns[b] == (if b < j { s[b] } else if b == j { x } else { s[b - 1] }));
        assert(np[a] == (if a < j { ps[a] } else if a == j { i } else { ps[a - 1] }));
        assert(np[b] == (if b < j { ps[b] } else if b == j { i } else { ps[b - 1] }));
        if a == j {
            assert(semver_order(kx, release_key(s[b - 1].0)) == 1);
        } else if b == j {
            assert(0 <= ps[a] < i);
        } else {
            let a2 = if a < j { a } else { a - 1 };
            let b2 = if b < j { b } else { b - 1 };
            assert(semver_order(release_key(s[a2].0), release_key(s[b2].0)) == 0);
            assert(ps[a2] < ps[b2]);
        }
    }
}

/// Whether comparing the ranks of any two rows the other way round gives the
/// opposite answer (as `compare_semver` states for every pair it compares).
pub open spec fn ranks_antisymmetric(rows: Seq<RowView>) -> bool {
    forall|a: int, b: int|
        0 <= a < rows.len() && 0 <= b < rows.len() ==> semver_order(
            release_key(#[trigger] rows[a].0),
            release_key(#[trigger] rows[b].0),
        ) == -semver_order(release_key(rows[b].0), release_key(rows[a].0))
}

proof fn lemma_insert_position(t: Seq<RowView>, x: RowView) -> (j: int)
    ensures
        0 <= j <= t.len(),
        insert_newest_first(t, x) == t.insert(j, x),
        j == 0 || semver_order(release_key(x.0), release_key(t[j - 1].0)) != 1,
        forall|m: int| j <= m < t.len() ==> semver_order(release_key(x.0), release_key(#[trigger] t[m].0)) == 1,
    decreases t.len(),
{
    if t.len() == 0 {
        assert(t.insert(0, x) =~= seq![x]);
        0
    } else if semver_order(release_key(x.0), release_key(t.last().0)) == 1 {
        let u = t.drop_last();
        let j = lemma_insert_position(u, x);
        assert(u.insert(j, x).push(t.last()) =~= t.insert(j, x));
        assert forall|m: int| j <= m < t.len() implies semver_order(
            release_key(x.0),
            release_key(#[trigger] t[m].0),
        ) == 1 by {
            if m < t.len() - 1 {
                assert(t[m] == u[m]);
            }
        }
        if j > 0 {
            assert(t[j - 1] == u[j - 1]);
        }
        j
    } else {
        assert(t.push(x) =~= t.insert(t.len() as int, x));
        t.len() as int
    }
}

proof fn lemma_sorted_prefix(rows: Seq<RowView>, i: int) -> (p: Seq<int>)
    requires
        0 <= i <= rows.len(),
        ranks_antisymmetric(rows),
    ensures
        ranks_newest_first(sort_newest_first(rows.take(i))),
        p.len() == sort_newest_first(rows.take(i)).len(),
        sort_newest_first(rows.take(i)).len() == i,
        forall|k: int|
            0 <= k < p.len() ==> 0 <= #[trigger] p[k] < i && sort_newest_first(rows.take(i))[k] == rows[p[k]],
        forall|a: int, b: int| 0 <= a < b < p.len() ==> #[trigger] p[a] != #[trigger] p[b],
        forall|a: int, b: int|
            0 <= a < b < p.len() && semver_order(
                release_key(#[trigger] sort_newest_first(rows.take(i))[a].0),
                release_key(#[trigger] sort_newest_first(rows.take(i))[b].0),
            ) == 0 ==> p[a] < p[b],
    decreases i,
{
    if i == 0 {
        assert(rows.take(0) =~= Seq::<RowView>::empty());
        Seq::empty()
    } else {
        let ps = lemma_sorted_prefix(rows, i - 1);
        let t = sort_newest_first(rows.take(i - 1));
        let x = rows[i - 1];
        assert(rows.take(i).drop_last() =~= rows.take(i - 1));
        assert(rows.take(i).last() == x);
        assert(sort_newest_first(rows.take(i)) == insert_newest_first(t, x));
        let j = lemma_insert_position(t, x);
        assert forall|m: int| j <= m < t.len() implies semver_order(
            release_key(x.0),
            release_key(#[trigger] t[m].0),
        ) == 1 && semver_order(release_key(t[m].0), release_key(x.0)) == -1 by {
            assert(t[m] == rows[ps[m]]);
            assert(semver_order(release_key(rows[i - 1].0), release_key(rows[ps[m]].0)) == -semver_order(
                release_key(rows[ps[m]].0),
                release_key(rows[i - 1].0),
            ));
        }
        lemma_insert_keeps_order(t, ps, x, i - 1, j, rows);
        ps.insert(j, i - 1)
    }
}

/// Law: for ranks that compare antisymmetrically (as semver's order does),
/// the sorted list runs newest first (no row ranks above the row before it)
/// and is a stable permutation of the rows: each row once, rows that rank
/// equal in their first order.
pub proof fn law_sort_orders_newest_first(rows: Seq<RowView>)
    requires
        ranks_antisymmetric(rows),
    ensures
        ranks_newest_first(sort_newest_first(rows)),
        exists|p: Seq<int>| #[trigger] stable_permutation(sort_newest_first(rows), rows, p),
{
    let p = lemma_sorted_prefix(rows, rows.len() as int);
    assert(rows.take(rows.len() as int) =~= rows);
    assert(stable_permutation(sort_newest_first(rows), rows, p));
}

/// Sorts rows newest first by version precedence, as the version list does:
/// stable, with unparsable versions ranked as `0.0.0`. The result is the
/// stable insertion sort of the rows; no row ranks above the one before it;
/// and it holds every row once, rows that rank equal in their first order.
pub fn sort_versions(rows: Vec<VersionRow>) -> (r: Vec<VersionRow>)
    ensures
        r@.map_values(|x: VersionRow| x@) == sort_newest_first(rows@.map_values(|x: VersionRow| x@)),
        ranks_newest_first(r@.map_values(|x: VersionRow| x@)),
        exists|p: Seq<int>| #[trigger] stable_permutation(row_views(r@), row_views(rows@), p),
{
    let ghost orig = rows@.map_values(|x: VersionRow| x@);
    let ghost input = rows@;
    let len0 = rows.len();
    let ghost n = rows@.len();
    assert(n == len0);
    let mut rest = rows;
    let mut out: Vec<(SemVer, VersionRow)> = Vec::new();
    let ghost mut sorted: Seq<RowView> = Seq::empty();
    let ghost mut perm: Seq<int> = Seq::empty();
    let mut i: usize = 0;
    while rest.len() > 0
        invariant
            n == orig.len(),
            n <= usize::MAX,
            i <= n,
            rest@.len() == n - i,
            forall|k: int| 0 <= k < rest@.len() ==> #[trigger] rest@[k]@ == orig[i + k],
            sorted == sort_newest_first(orig.take(i as int)),
            out@.len() == sorted.len(),
            forall|k: int| 0 <= k < out@.len() ==> (#[trigger] out@[k]).1@ == sorted[k]
                && out@[k].0@ == release_key(sorted[k].0),
            ranks_newest_first(sorted),
            perm.len() == sorted.len(),
            sorted.len() == i,
            forall|k: int| 0 <= k < perm.len() ==> 0 <= #[trigger] perm[k] < i && sorted[k] == orig[perm[k]],
            forall|a: int, b: int| 0 <= a < b < perm.len() ==> #[trigger] perm[a] != #[trigger] perm[b],
            forall|a: int, b: int|
                0 <= a < b < perm.len() && semver_order(
                    release_key(#[trigger] sorted[a].0),
                    release_key(#[trigger] sorted[b].0),
                ) == 0 ==> perm[a] < perm[b],
        decreases rest@.len(),
    {
        let row = rest.remove(0);
        let key = rank_version(row.version.as_str());
        let ghost x = row@;
        let ghost s = sorted;
        let ghost ps = perm;
        let ghost kx = release_key(x.0);
        assert(x == orig[i as int]);
        let mut j: usize = out.len();
        assert(s.take(j as int) =~= s);
        assert(s.skip(j as int) =~= Seq::<RowView>::empty());
        while j > 0 && compare_semver(&key, &out[j - 1].0) == 1
            invariant
                j <= out@.len(),
                out@.len() == s.len(),
                key@ == kx,
                kx == release_key(x.0),
                forall|k: int| 0 <= k < out@.len() ==> (#[trigger] out@[k]).1@ == s[k]
                    && out@[k].0@ == release_key(s[k].0),
                insert_newest_first(s, x) == insert_newest_first(s.take(j as int), x) + s.skip(j as int),
                forall|m: int| j <= m < s.len() ==> semver_order(kx, release_key(#[trigger] s[m].0)) == 1
                    && semver_order(release_key(s[m].0), kx) == -1,
            decreases j,
        {
            proof {
                let t = s.take(j as int);
                assert(t.drop_last() =~= s.take(j - 1));
                assert(t.last() == s[j - 1]);
                assert(s.skip(j - 1) =~= seq![s[j - 1]] + s.skip(j as int));
                assert(insert_newest_first(t, x) == insert_newest_first(s.take(j - 1), x).push(s[j - 1]));
                assert(insert_newest_first(s.take(j - 1), x).push(s[j - 1]) + s.skip(j as int)
                    =~= insert_newest_first(s.take(j - 1), x) + s.skip(j - 1));
                assert(out@[j - 1].0@ == release_key(s[j - 1].0));
            }
            j -= 1;
        }
        let ghost below_ok = j == 0 || semver_order(kx, release_key(s[j - 1].0)) != 1;
        proof {
            if j > 0 {
                assert(out@[j - 1].0@ == release_key(s[j - 1].0));
            }
            assert(below_ok);
            let t = s.take(j as int);
            if j > 0 {
                assert(t.last() == s[j - 1]);
                assert(semver_order(release_key(x.0), release_key(t.last().0)) != 1);
                assert(insert_newest_first(t, x) == t.push(x));
            } else {
                assert(t =~= Seq::<RowView>::empty());
                assert(insert_newest_first(t, x) == seq![x]);
            }
            assert(insert_newest_first(s, x) =~= s.take(j as int).push(x) + s.skip(j as int));
            let u = orig.take(i + 1);
            assert(u.drop_last() =~= orig.take(i as int));
            assert(u.last() == x);
        }
        out.insert(j, (key, row));
        proof {
            let ns = s.insert(j as int, x);
            let np = ps.insert(j as int, i as int);
            assert(insert_newest_first(s, x) =~= ns);
            lemma_insert_keeps_order(s, ps, x, i as int, j as int, orig);
            sorted = ns;
            perm = np;
        }
        i += 1;
    }
    assert(orig.take(n as int) =~= orig);
    let mut result: Vec<VersionRow> = Vec::new();
    let ghost m = out@.len();
    while out.len() > 0
        invariant
            m == sorted.len(),
            result@.len() + out@.len() == m,
            forall|k: int| 0 <= k < result@.len() ==> #[trigger] result@[k]@ == sorted[k],
            forall|k: int| 0 <= k < out@.len() ==> (#[trigger] out@[k]).1@ == sorted[result@.len() + k],
        decreases out@.len(),
    {
        let (_, row) = out.remove(0);
        result.push(row);
    }
    assert(result@.map_values(|x: VersionRow| x@) =~= sorted);
    assert(stable_permutation(sorted, orig, perm));
    assert(row_views(result@) == sorted);
    assert(row_views(input) == orig);
    assert(stable_permutation(row_views(result@), row_views(input), perm));
    result
}

} // verus!
