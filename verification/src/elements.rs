//! The elements of a query on which an extension's directives apply, as the
//! host hands them to the extension: one list of sites, and for each
//! directive name the range of that list that belongs to it.
use vstd::prelude::*;

verus! {

/// Where a directive was applied in the query, and with which arguments.
#[derive(Debug)]
pub struct DirectiveSiteRecord {
    /// The name of the type that holds the element.
    pub parent_type_name: String,
    /// The name of the element (a field name, for a field).
    pub field_name: String,
    /// The directive's arguments, serialized.
    pub arguments: Vec<u8>,
}

/// The query elements as the host sends them.
#[derive(Debug)]
pub struct QueryElementsRecord {
    /// For each directive name, the range `start..end` of `elements` that
    /// holds the elements it applies to.
    pub directive_names: Vec<(String, u32, u32)>,
    /// All elements, grouped by directive name.
    pub elements: Vec<DirectiveSiteRecord>,
}

impl QueryElementsRecord {
    /// Every directive's range lies within the element list.
    pub open spec fn wf(&self) -> bool {
        forall|k: int|
            0 <= k < self.directive_names@.len() ==> (#[trigger] self.directive_names@[k]).1
                <= self.directive_names@[k].2 <= self.elements@.len()
    }
}

/// A list of elements present in the query on which one of the extension's
/// directive was applied on their definition.
#[derive(Clone, Copy)]
pub struct QueryElements<'a>(pub &'a QueryElementsRecord);

impl<'a> From<&'a QueryElementsRecord> for QueryElements<'a> {
    fn from(value: &'a QueryElementsRecord) -> (r: Self) {
        Self(value)
    }
}

impl<'a> vstd::std_specs::convert::FromSpecImpl<&'a QueryElementsRecord> for QueryElements<'a> {
    open spec fn obeys_from_spec() -> bool {
        true
    }

    open spec fn from_spec(value: &'a QueryElementsRecord) -> Self {
        QueryElements(value)
    }
}

/// An element of the query on which a directive was applied.
#[derive(Clone, Copy)]
pub struct QueryElement<'a> {
    site: &'a DirectiveSiteRecord,
    ix: u32,
}

/// Site, where and with which arguments, of the directive associated with
/// an element.
#[derive(Clone, Copy)]
pub struct DirectiveSite<'a>(pub &'a DirectiveSiteRecord);

impl<'a> QueryElement<'a> {
    /// The site record of the element.
    pub closed spec fn site_of(self) -> &'a DirectiveSiteRecord {
        self.site
    }

    /// The position of the element in the whole list.
    pub closed spec fn ix_of(self) -> u32 {
        self.ix
    }

    /// Site, where and with which arguments, of the directive associated
    /// with this element.
    pub fn site(&self) -> (r: DirectiveSite<'a>)
        ensures
            r.0 == self.site_of(),
    {
        DirectiveSite(self.site)
    }

    /// The position of the element in the list of all elements.
    pub fn ix(&self) -> (r: u32)
        ensures
            r == self.ix_of(),
    {
        self.ix
    }
}

/// `elems` are the elements `start..start + elems.len()` of `all`, in order.
pub open spec fn elements_from(elems: Seq<QueryElement>, all: Seq<DirectiveSiteRecord>, start: int) -> bool {
    forall|j: int|
        0 <= j < elems.len() ==> (#[trigger] elems[j]).ix_of() == (start + j) as u32 && *elems[j].site_of() == all[start
            + j]
}

impl<'a> QueryElements<'a> {
    /// Number of elements within the query
    pub fn len(&self) -> (r: usize)
        ensures
            r == self.0.elements@.len(),
    {
        self.0.elements.len()
    }

    /// All elements, regardless of the directive they're associated with,
    /// each with its position in the list (kept to 32 bits).
    pub fn iter(&self) -> (r: Vec<QueryElement<'a>>)
        ensures
            r@.len() == self.0.elements@.len(),
            elements_from(r@, self.0.elements@, 0),
    {
        let elements = &self.0.elements;
        let mut out: Vec<QueryElement<'a>> = Vec::new();
        let mut i: usize = 0;
        while i < elements.len()
            invariant
                i <= elements@.len(),
                out@.len() == i,
                elements_from(out@, elements@, 0),
            decreases elements.len() - i,
        {
            out.push(QueryElement { site: &elements[i], ix: #[verifier::truncate] (i as u32) });
            i += 1;
        }
        out
    }

    /// All elements grouped by the directive name: for each directive name,
    /// the elements of its range, each with its position in the whole list.
    pub fn iter_grouped_by_directive_name(&self) -> (r: Vec<(&'a str, Vec<QueryElement<'a>>)>)
        requires
            self.0.wf(),
        ensures
            r@.len() == self.0.directive_names@.len(),
            forall|k: int|
                0 <= k < r@.len() ==> {
                    let (name, start, end) = self.0.directive_names@[k];
                    &&& (#[trigger] r@[k]).0@ == name@
                    &&& r@[k].1@.len() == end - start
                    &&& elements_from(r@[k].1@, self.0.elements@, start as int)
                },
    {
        let query = self.0;
        let mut groups: Vec<(&'a str, Vec<QueryElement<'a>>)> = Vec::new();
        let mut k: usize = 0;
        while k < query.directive_names.len()
            invariant
                k <= query.directive_names@.len(),
                query.wf(),
                groups@.len() == k,
                forall|g: int|
                    0 <= g < k ==> {
                        let (name, start, end) = query.directive_names@[g];
                        &&& (#[trigger] groups@[g]).0@ == name@
                        &&& groups@[g].1@.len() == end - start
                        &&& elements_from(groups@[g].1@, query.elements@, start as int)
                    },
            decreases query.directive_names.len() - k,
        {
            let start = query.directive_names[k].1;
            let end = query.directive_names[k].2;
            assert(start <= end <= query.elements@.len()) by {
                assert(query.directive_names@[k as int].1 <= query.directive_names@[k as int].2);
            }
            let mut items: Vec<QueryElement<'a>> = Vec::new();
            let mut i: u32 = start;
            while i < end
                invariant
                    start <= i <= end <= query.elements@.len(),
                    items@.len() == i - start,
                    elements_from(items@, query.elements@, start as int),
                decreases end - i,
            {
                items.push(QueryElement { site: &query.elements[i as usize], ix: i });
                i += 1;
            }
            groups.push((query.directive_names[k].0.as_str(), items));
            k += 1;
        }
        groups
    }
}

/// When the directives' ranges follow one another and together cover the
/// whole element list, every element belongs to exactly one group: the
/// group whose range holds its position.
pub proof fn lemma_groups_partition(q: QueryElementsRecord, ix: int)
    requires
        q.wf(),
        q.directive_names@.len() > 0,
        q.directive_names@[0].1 == 0,
        q.directive_names@.last().2 == q.elements@.len(),
        forall|k: int|
            0 <= k < q.directive_names@.len() - 1 ==> (#[trigger] q.directive_names@[k]).2
                == q.directive_names@[k + 1].1,
        0 <= ix < q.elements@.len(),
    ensures
        exists|k: int|
            0 <= k < q.directive_names@.len() && q.directive_names@[k].1 <= ix < (
            #[trigger] q.directive_names@[k]).2,
        forall|k1: int, k2: int|
            #![trigger q.directive_names@[k1], q.directive_names@[k2]]
            0 <= k1 < q.directive_names@.len() && 0 <= k2 < q.directive_names@.len() && q.directive_names@[k1].1
                <= ix < q.directive_names@[k1].2 && q.directive_names@[k2].1 <= ix < q.directive_names@[k2].2
                ==> k1 == k2,
{
    let n = q.directive_names@.len();
    let names = q.directive_names@;
    // The ranges' starts never decrease.
    let k = lemma_find_group(q, ix, 0);
    assert forall|k1: int, k2: int|
        #![trigger names[k1], names[k2]]
        0 <= k1 < n && 0 <= k2 < n && names[k1].1 <= ix < names[k1].2 && names[k2].1 <= ix < names[k2].2
        implies k1 == k2 by {
        if k1 < k2 {
            lemma_starts_monotone(q, k1 + 1, k2);
            assert(names[k1].2 == names[k1 + 1].1);
        } else if k2 < k1 {
            lemma_starts_monotone(q, k2 + 1, k1);
            assert(names[k2].2 == names[k2 + 1].1);
        }
    }
}

proof fn lemma_find_group(q: QueryElementsRecord, ix: int, k: int) -> (r: int)
    requires
        q.wf(),
        0 <= k < q.directive_names@.len(),
        q.directive_names@[k].1 <= ix < q.elements@.len(),
        q.directive_names@.last().2 == q.elements@.len(),
        forall|k: int|
            0 <= k < q.directive_names@.len() - 1 ==> (#[trigger] q.directive_names@[k]).2
                == q.directive_names@[k + 1].1,
    ensures
        0 <= r < q.directive_names@.len(),
        q.directive_names@[r].1 <= ix < q.directive_names@[r].2,
    decreases q.directive_names@.len() - k,
{
    let n = q.directive_names@.len();
    if k + 1 < n {
        assert(q.directive_names@[k].2 == q.directive_names@[k + 1].1);
        if q.directive_names@[k + 1].1 <= ix {
            lemma_find_group(q, ix, k + 1)
        } else {
            k
        }
    } else {
        k
    }
}

proof fn lemma_starts_monotone(q: QueryElementsRecord, a: int, b: int)
    requires
        q.wf(),
        0 <= a <= b < q.directive_names@.len(),
        forall|k: int|
            0 <= k < q.directive_names@.len() - 1 ==> (#[trigger] q.directive_names@[k]).2
                == q.directive_names@[k + 1].1,
    ensures
        q.directive_names@[a].1 <= q.directive_names@[b].1,
    decreases b - a,
{
    if a < b {
        lemma_starts_monotone(q, a + 1, b);
        assert(q.directive_names@[a].1 <= q.directive_names@[a].2);
        assert(q.directive_names@[a].2 == q.directive_names@[a + 1].1);
    }
}

} // verus!
