use vstd::prelude::*;

verus! {

/// Index of the first identifier in `ids` equal to `key`, if any.
pub open spec fn first_match(ids: Seq<String>, key: Seq<char>) -> Option<usize>
    decreases ids.len(),
{
    if ids.len() == 0 {
        None
    } else {
        match first_match(ids.drop_last(), key) {
            Some(j) => Some(j),
            None => if ids.last()@ == key {
                Some((ids.len() - 1) as usize)
            } else {
                None
            },
        }
    }
}

/// Indices, in increasing order, of the identifiers in `ids` equal to `key`.
pub open spec fn matching_rows(ids: Seq<String>, key: Seq<char>) -> Seq<usize>
    decreases ids.len(),
{
    if ids.len() == 0 {
        seq![]
    } else {
        let rest = matching_rows(ids.drop_last(), key);
        if ids.last()@ == key {
            rest.push((ids.len() - 1) as usize)
        } else {
            rest
        }
    }
}

/// Finds the first row of `ids` whose hole identifier is exactly `key`.
pub fn find_hole(ids: &Vec<String>, key: &String) -> (r: Option<usize>)
    ensures
        r == first_match(ids@, key@),
{
    let mut i: usize = 0;
    while i < ids.len()
        invariant
            i <= ids.len(),
            first_match(ids@.subrange(0, i as int), key@) is None,
        decreases ids.len() - i,
    {
        assert(ids@.subrange(0, i as int + 1).drop_last() =~= ids@.subrange(0, i as int));
        if ids[i] == *key {
            assert(ids@.subrange(0, i as int + 1).last() == ids@[i as int]);
            proof { lemma_first_match_prefix(ids@, key@, i as int + 1); }
            return Some(i);
        }
        i = i + 1;
    }
    assert(ids@.subrange(0, ids.len() as int) =~= ids@);
    None
}

/// A match found in a prefix is the first match of the whole sequence.
proof fn lemma_first_match_prefix(ids: Seq<String>, key: Seq<char>, n: int)
    requires
        0 <= n <= ids.len(),
        first_match(ids.subrange(0, n), key) is Some,
    ensures
        first_match(ids, key) == first_match(ids.subrange(0, n), key),
    decreases ids.len() - n,
{
    if n < ids.len() {
        assert(ids.subrange(0, n + 1).drop_last() =~= ids.subrange(0, n));
        lemma_first_match_prefix(ids, key, n + 1);
    } else {
        assert(ids.subrange(0, n) =~= ids);
    }
}


/// Selects, in table order, the assay rows whose hole identifier is exactly `hole_id`.
pub fn rows_for_hole(assay_ids: &Vec<String>, hole_id: &String) -> (r: Vec<usize>)
    ensures
        r@ == matching_rows(assay_ids@, hole_id@),
{
    let mut r: Vec<usize> = Vec::new();
    let mut i: usize = 0;
    while i < assay_ids.len()
        invariant
            i <= assay_ids.len(),
            r@ == matching_rows(assay_ids@.subrange(0, i as int), hole_id@),
        decreases assay_ids.len() - i,
    {
        let ghost prefix = assay_ids@.subrange(0, i as int + 1);
        assert(prefix.drop_last() =~= assay_ids@.subrange(0, i as int));
        assert(prefix.last() == assay_ids@[i as int]);
        if assay_ids[i] == *hole_id {
            r.push(i);
        }
        i = i + 1;
    }
    assert(assay_ids@.subrange(0, assay_ids.len() as int) =~= assay_ids@);
    r
}

/// Left join of headers with surveys: for each header row, the first survey row
/// of the same hole, or `None` where the hole has no survey.
pub fn join_surveys(header_ids: &Vec<String>, survey_ids: &Vec<String>) -> (r: Vec<Option<usize>>)
    ensures
        r.len() == header_ids.len(),
        forall|i: int| 0 <= i < r.len() ==> r@[i] == first_match(survey_ids@, header_ids@[i]@),
{
    let mut r: Vec<Option<usize>> = Vec::new();
    let mut i: usize = 0;
    while i < header_ids.len()
        invariant
            i <= header_ids.len(),
            r.len() == i,
            forall|k: int| 0 <= k < i ==> r@[k] == first_match(survey_ids@, header_ids@[k]@),
        decreases header_ids.len() - i,
    {
        let s = find_hole(survey_ids, &header_ids[i]);
        r.push(s);
        i = i + 1;
    }
    r
}


/// One interval to build: a header row, the survey row that orients its hole,
/// and one assay row of the same hole.
#[derive(Clone, Copy, Debug, PartialEq, Eq, Structural)]
pub struct IntervalRef {
    pub header: usize,
    pub survey: usize,
    pub assay: usize,
}

/// What the drill-hole tables yield once joined: the intervals to build, in
/// header order and then assay order, and the rows that found no partner.
#[derive(Debug)]
pub struct IntervalPlan {
    pub intervals: Vec<IntervalRef>,
    /// Header rows whose hole has no survey row.
    pub missing_survey: Vec<usize>,
    /// Assay rows whose hole has no header row.
    pub missing_header: Vec<usize>,
    /// Header rows whose hole has no assay row.
    pub missing_assay: Vec<usize>,
}

/// The intervals of one hole, one per assay row in `rows`.
pub open spec fn hole_intervals(header: usize, survey: usize, rows: Seq<usize>) -> Seq<IntervalRef> {
    rows.map_values(|a: usize| IntervalRef { header, survey, assay: a })
}

/// The intervals of every header row that has a survey, in header order.
pub open spec fn planned_intervals(
    header_ids: Seq<String>,
    survey_ids: Seq<String>,
    assay_ids: Seq<String>,
) -> Seq<IntervalRef>
    decreases header_ids.len(),
{
    if header_ids.len() == 0 {
        seq![]
    } else {
        let prev = planned_intervals(header_ids.drop_last(), survey_ids, assay_ids);
        let key = header_ids.last()@;
        match first_match(survey_ids, key) {
            Some(s) => prev + hole_intervals(
                (header_ids.len() - 1) as usize,
                s,
                matching_rows(assay_ids, key),
            ),
            None => prev,
        }
    }
}

/// Indices, in increasing order, of the rows of `ids` whose identifier occurs
/// nowhere in `keys`.
pub open spec fn unmatched_rows(ids: Seq<String>, keys: Seq<String>) -> Seq<usize>
    decreases ids.len(),
{
    if ids.len() == 0 {
        seq![]
    } else {
        let rest = unmatched_rows(ids.drop_last(), keys);
        if first_match(keys, ids.last()@) is None {
            rest.push((ids.len() - 1) as usize)
        } else {
            rest
        }
    }
}

/// Rows of `ids` whose identifier has no row in `keys`.
pub fn unmatched(ids: &Vec<String>, keys: &Vec<String>) -> (r: Vec<usize>)
    ensures
        r@ == unmatched_rows(ids@, keys@),
{
    let mut r: Vec<usize> = Vec::new();
    let mut i: usize = 0;
    while i < ids.len()
        invariant
            i <= ids.len(),
            r@ == unmatched_rows(ids@.subrange(0, i as int), keys@),
        decreases ids.len() - i,
    {
        let ghost prefix = ids@.subrange(0, i as int + 1);
        assert(prefix.drop_last() =~= ids@.subrange(0, i as int));
        assert(prefix.last() == ids@[i as int]);
        if find_hole(keys, &ids[i]).is_none() {
            r.push(i);
        }
        i = i + 1;
    }
    assert(ids@.subrange(0, ids.len() as int) =~= ids@);
    r
}

/// Joins the header, survey and assay tables by exact hole identifier.
pub fn plan_intervals(
    header_ids: &Vec<String>,
    survey_ids: &Vec<String>,
    assay_ids: &Vec<String>,
) -> (r: IntervalPlan)
    ensures
        r.intervals@ == planned_intervals(header_ids@, survey_ids@, assay_ids@),
        r.missing_survey@ == unmatched_rows(header_ids@, survey_ids@),
        r.missing_header@ == unmatched_rows(assay_ids@, header_ids@),
        r.missing_assay@ == unmatched_rows(header_ids@, assay_ids@),
{
    let mut intervals: Vec<IntervalRef> = Vec::new();
    let mut i: usize = 0;
    while i < header_ids.len()
        invariant
            i <= header_ids.len(),
            intervals@ == planned_intervals(
                header_ids@.subrange(0, i as int),
                survey_ids@,
                assay_ids@,
            ),
        decreases header_ids.len() - i,
    {
        let ghost prefix = header_ids@.subrange(0, i as int + 1);
        assert(prefix.drop_last() =~= header_ids@.subrange(0, i as int));
        assert(prefix.last() == header_ids@[i as int]);
        let ghost prev = intervals@;
        match find_hole(survey_ids, &header_ids[i]) {
            Some(s) => {
                let rows = rows_for_hole(assay_ids, &header_ids[i]);
                let mut k: usize = 0;
                while k < rows.len()
                    invariant
                        k <= rows.len(),
                        intervals@ == prev + hole_intervals(i, s, rows@.subrange(0, k as int)),
                    decreases rows.len() - k,
                {
                    intervals.push(IntervalRef { header: i, survey: s, assay: rows[k] });
                    assert(hole_intervals(i, s, rows@.subrange(0, k as int + 1)) =~= hole_intervals(
                        i,
                        s,
                        rows@.subrange(0, k as int),
                    ).push(IntervalRef { header: i, survey: s, assay: rows@[k as int] }));
                    k = k + 1;
                }
                assert(rows@.subrange(0, rows.len() as int) =~= rows@);
            },
            None => {},
        }
        i = i + 1;
    }
    assert(header_ids@.subrange(0, header_ids.len() as int) =~= header_ids@);
    let missing_survey = unmatched(header_ids, survey_ids);
    let missing_header = unmatched(assay_ids, header_ids);
    let missing_assay = unmatched(header_ids, assay_ids);
    IntervalPlan { intervals, missing_survey, missing_header, missing_assay }
}


/// The first match is a row with exactly the key, and no earlier row has it;
/// there is no match only where no row has the key.
pub proof fn lemma_first_match_exact(ids: Seq<String>, key: Seq<char>)
    requires
        ids.len() <= usize::MAX,
    ensures
        match first_match(ids, key) {
            Some(j) => j < ids.len() && ids[j as int]@ == key && forall|k: int|
                0 <= k < j ==> ids[k]@ != key,
            None => forall|k: int| 0 <= k < ids.len() ==> ids[k]@ != key,
        },
    decreases ids.len(),
{
    if ids.len() > 0 {
        let rest = ids.drop_last();
        lemma_first_match_exact(rest, key);
        assert forall|k: int| 0 <= k < rest.len() implies rest[k] == ids[k] by {}
    }
}

/// Filtering by hole identifier is exact: every selected row has exactly the
/// identifier asked for (so no row of another hole whose name merely contains
/// it), and every row with that identifier is selected, in increasing order.
pub proof fn lemma_rows_for_hole_exact(ids: Seq<String>, key: Seq<char>)
    requires
        ids.len() <= usize::MAX,
    ensures
        forall|k: int|
            0 <= k < matching_rows(ids, key).len() ==> {
                &&& #[trigger] matching_rows(ids, key)[k] < ids.len()
                &&& ids[matching_rows(ids, key)[k] as int]@ == key
            },
        forall|j: int|
            0 <= j < ids.len() && ids[j]@ == key ==> matching_rows(ids, key).contains(j as usize),
        forall|k1: int, k2: int|
            0 <= k1 < k2 < matching_rows(ids, key).len() ==> matching_rows(ids, key)[k1]
                < matching_rows(ids, key)[k2],
    decreases ids.len(),
{
    if ids.len() > 0 {
        let rest = ids.drop_last();
        lemma_rows_for_hole_exact(rest, key);
        let m = matching_rows(ids, key);
        let mr = matching_rows(rest, key);
        assert forall|k: int| 0 <= k < rest.len() implies rest[k] == ids[k] by {}
        assert forall|k: int| 0 <= k < mr.len() implies m[k] == mr[k] by {}
        assert forall|j: int| 0 <= j < ids.len() && ids[j]@ == key implies m.contains(
            j as usize,
        ) by {
            if j < ids.len() - 1 {
                assert(rest[j] == ids[j]);
                assert(mr.contains(j as usize));
                let w = choose|w: int| 0 <= w < mr.len() && mr[w] == j as usize;
                assert(m[w] == j as usize);
            } else {
                assert(m[m.len() - 1] == j as usize);
            }
        }
    }
}

/// Every planned interval joins rows of one hole: its header, its survey row
/// and its assay row exist and carry exactly the same hole identifier.
pub proof fn lemma_planned_intervals_same_hole(
    header_ids: Seq<String>,
    survey_ids: Seq<String>,
    assay_ids: Seq<String>,
)
    requires
        header_ids.len() <= usize::MAX,
        survey_ids.len() <= usize::MAX,
        assay_ids.len() <= usize::MAX,
    ensures
        forall|k: int|
            0 <= k < planned_intervals(header_ids, survey_ids, assay_ids).len() ==> {
                let iv = #[trigger] planned_intervals(header_ids, survey_ids, assay_ids)[k];
                &&& iv.header < header_ids.len()
                &&& iv.survey < survey_ids.len()
                &&& iv.assay < assay_ids.len()
                &&& survey_ids[iv.survey as int]@ == header_ids[iv.header as int]@
                &&& assay_ids[iv.assay as int]@ == header_ids[iv.header as int]@
            },
    decreases header_ids.len(),
{
    if header_ids.len() > 0 {
        let rest = header_ids.drop_last();
        lemma_planned_intervals_same_hole(rest, survey_ids, assay_ids);
        let key = header_ids.last()@;
        lemma_first_match_exact(survey_ids, key);
        lemma_rows_for_hole_exact(assay_ids, key);
        let prev = planned_intervals(rest, survey_ids, assay_ids);
        let all = planned_intervals(header_ids, survey_ids, assay_ids);
        let rows = matching_rows(assay_ids, key);
        assert forall|k: int| 0 <= k < all.len() implies {
            let iv = #[trigger] all[k];
            &&& iv.header < header_ids.len()
            &&& iv.survey < survey_ids.len()
            &&& iv.assay < assay_ids.len()
            &&& survey_ids[iv.survey as int]@ == header_ids[iv.header as int]@
            &&& assay_ids[iv.assay as int]@ == header_ids[iv.header as int]@
        } by {
            if k < prev.len() {
                assert(all[k] == prev[k]);
                assert(rest[prev[k].header as int] == header_ids[prev[k].header as int]);
            } else {
                let s = first_match(survey_ids, key).unwrap();
                let h = (header_ids.len() - 1) as usize;
                assert(all[k] == hole_intervals(h, s, rows)[k - prev.len()]);
                assert(rows[k - prev.len()] < assay_ids.len());
                assert(header_ids.last() == header_ids[header_ids.len() - 1]);
            }
        }
    }
}

/// A row whose identifier has no match among the keys is listed as unmatched.
proof fn lemma_unmatched_rows_complete(ids: Seq<String>, keys: Seq<String>, j: int)
    requires
        ids.len() <= usize::MAX,
        0 <= j < ids.len(),
        first_match(keys, ids[j]@) is None,
    ensures
        unmatched_rows(ids, keys).contains(j as usize),
    decreases ids.len(),
{
    let rest = ids.drop_last();
    let u = unmatched_rows(ids, keys);
    if j == ids.len() - 1 {
        assert(u[u.len() - 1] == j as usize);
    } else {
        assert(rest[j] == ids[j]);
        lemma_unmatched_rows_complete(rest, keys, j);
        let ur = unmatched_rows(rest, keys);
        let w = choose|w: int| 0 <= w < ur.len() && ur[w] == j as usize;
        assert(u[w] == ur[w]);
    }
}

/// A header row with a survey yields an interval for each assay row of its hole.
proof fn lemma_planned_intervals_complete(
    header_ids: Seq<String>,
    survey_ids: Seq<String>,
    assay_ids: Seq<String>,
    h: int,
    a: int,
)
    requires
        header_ids.len() <= usize::MAX,
        assay_ids.len() <= usize::MAX,
        0 <= h < header_ids.len(),
        0 <= a < assay_ids.len(),
        first_match(survey_ids, header_ids[h]@) is Some,
        assay_ids[a]@ == header_ids[h]@,
    ensures
        planned_intervals(header_ids, survey_ids, assay_ids).contains(
            IntervalRef {
                header: h as usize,
                survey: first_match(survey_ids, header_ids[h]@).unwrap(),
                assay: a as usize,
            },
        ),
    decreases header_ids.len(),
{
    let rest = header_ids.drop_last();
    let all = planned_intervals(header_ids, survey_ids, assay_ids);
    let prev = planned_intervals(rest, survey_ids, assay_ids);
    let target = IntervalRef {
        header: h as usize,
        survey: first_match(survey_ids, header_ids[h]@).unwrap(),
        assay: a as usize,
    };
    if h == header_ids.len() - 1 {
        let key = header_ids.last()@;
        lemma_rows_for_hole_exact(assay_ids, key);
        let rows = matching_rows(assay_ids, key);
        assert(rows.contains(a as usize));
        let w = choose|w: int| 0 <= w < rows.len() && rows[w] == a as usize;
        assert(all[prev.len() + w] == target);
    } else {
        assert(rest[h] == header_ids[h]);
        lemma_planned_intervals_complete(rest, survey_ids, assay_ids, h, a);
        let w = choose|w: int| 0 <= w < prev.len() && prev[w] == target;
        let key = header_ids.last()@;
        if first_match(survey_ids, key) is Some {
            assert(all[w] == prev[w]);
        }
    }
}

/// No assay row is dropped without a trace: each one becomes an interval of
/// every header row of its hole that has a survey, or its hole is reported,
/// as having no header row or as a header row without survey.
pub proof fn lemma_assay_rows_accounted(
    header_ids: Seq<String>,
    survey_ids: Seq<String>,
    assay_ids: Seq<String>,
    a: int,
)
    requires
        header_ids.len() <= usize::MAX,
        survey_ids.len() <= usize::MAX,
        assay_ids.len() <= usize::MAX,
        0 <= a < assay_ids.len(),
    ensures
        unmatched_rows(assay_ids, header_ids).contains(a as usize) || exists|h: int|
            0 <= h < header_ids.len() && header_ids[h]@ == assay_ids[a]@ && (unmatched_rows(
                header_ids,
                survey_ids,
            ).contains(h as usize) || planned_intervals(header_ids, survey_ids, assay_ids).contains(
                IntervalRef {
                    header: h as usize,
                    survey: first_match(survey_ids, header_ids[h]@).unwrap(),
                    assay: a as usize,
                },
            )),
{
    let key = assay_ids[a]@;
    lemma_first_match_exact(header_ids, key);
    match first_match(header_ids, key) {
        None => {
            lemma_unmatched_rows_complete(assay_ids, header_ids, a);
        },
        Some(h) => {
            if first_match(survey_ids, key) is None {
                lemma_unmatched_rows_complete(header_ids, survey_ids, h as int);
            } else {
                lemma_planned_intervals_complete(header_ids, survey_ids, assay_ids, h as int, a);
            }
        },
    }
}

} // verus!
