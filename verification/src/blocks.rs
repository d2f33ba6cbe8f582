//! Blocks: one data array bound to its samples, components and properties
//! labels, with the shape of the array validated against those labels; and
//! the axis-migration operation that moves a component axis into the
//! property axis for a block and all of its gradients.

use std::sync::Arc;

use vstd::prelude::*;

use crate::data::DataArray;
use crate::error::Error;
use crate::text::str_equal;
use crate::labels::{
    all_distinct, concat_names, concat_rows, copy_names, labels_equal, names_equal, Labels,
    LabelsBuilder, LabelsView,
};

verus! {

/// A vector whose contents can not be modified after construction.
#[derive(Debug)]
pub struct ImmutableVec<T>(Vec<T>);

impl<T> View for ImmutableVec<T> {
    type V = Seq<T>;

    closed spec fn view(&self) -> Seq<T> {
        self.0@
    }
}

impl<T: DeepView> DeepView for ImmutableVec<T> {
    type V = Seq<T::V>;

    open spec fn deep_view(&self) -> Seq<T::V> {
        Seq::new(self@.len(), |i: int| self@[i].deep_view())
    }
}

impl<T> ImmutableVec<T> {
    /// Freeze a vector.
    pub fn from_vec(v: Vec<T>) -> (r: Self)
        ensures
            r@ == v@,
    {
        ImmutableVec(v)
    }

    /// The number of elements.
    pub fn len(&self) -> (r: usize)
        ensures
            r == self@.len(),
    {
        self.0.len()
    }

    /// Whether there are no elements.
    pub fn is_empty(&self) -> (r: bool)
        ensures
            r == (self@.len() == 0),
    {
        self.0.is_empty()
    }

    /// The element at the given position.
    pub fn get(&self, i: usize) -> (r: &T)
        requires
            i < self@.len(),
        ensures
            *r == self@[i as int],
    {
        &self.0[i]
    }
}

/// The array rank equals the number of label sets: samples + one per
/// component + properties.
pub open spec fn rank_matches(shape: Seq<usize>, components: Seq<LabelsView>) -> bool {
    shape.len() == components.len() + 2
}

/// Axis 0 of the array has one entry per sample label.
pub open spec fn samples_count_matches(shape: Seq<usize>, samples: LabelsView) -> bool {
    shape[0] as int == samples.count() as int
}

/// No two component label sets use the same column names.
pub open spec fn component_names_unique(components: Seq<LabelsView>) -> bool {
    forall|i: int, j: int| 0 <= i < j < components.len()
        ==> (#[trigger] components[i]).names != (#[trigger] components[j]).names
}

/// Axis `k + 1` of the array has one entry per label of component `k`.
pub open spec fn component_count_matches(
    shape: Seq<usize>,
    components: Seq<LabelsView>,
    k: int,
) -> bool {
    shape[k + 1] as int == components[k].count() as int
}

/// The last axis of the array has one entry per property label.
pub open spec fn properties_count_matches(
    shape: Seq<usize>,
    components: Seq<LabelsView>,
    properties: LabelsView,
) -> bool {
    shape[components.len() as int + 1] as int == properties.count() as int
}

/// The whole shape-against-labels check: rank, samples axis, unique
/// component names, each component axis in order, properties axis.
pub open spec fn data_labels_ok(
    shape: Seq<usize>,
    samples: LabelsView,
    components: Seq<LabelsView>,
    properties: LabelsView,
) -> bool {
    &&& rank_matches(shape, components)
    &&& samples_count_matches(shape, samples)
    &&& component_names_unique(components)
    &&& forall|k: int| 0 <= k < components.len() ==> component_count_matches(shape, components, k)
    &&& properties_count_matches(shape, components, properties)
}

/// The exact error reported when the shape-against-labels check fails: the
/// first of the checks (in their order) that does not hold, carrying the
/// offending axis and counts.
pub open spec fn is_data_labels_error(
    e: Error,
    context: Seq<char>,
    shape: Seq<usize>,
    samples: LabelsView,
    components: Seq<LabelsView>,
    properties: LabelsView,
) -> bool {
    if !rank_matches(shape, components) {
        &&& e matches Error::WrongDimensionsCount { context: c, rank, labels_count }
        &&& c@ == context
        &&& rank == shape.len()
        &&& labels_count as int == components.len() + 2
    } else if !samples_count_matches(shape, samples) {
        &&& e matches Error::WrongSamplesCount { context: c, axis_len, count }
        &&& c@ == context
        &&& axis_len == shape[0]
        &&& count as int == samples.count() as int
    } else if !component_names_unique(components) {
        &&& e matches Error::DuplicateComponentNames { context: c }
        &&& c@ == context
    } else if exists|k: int|
        0 <= k < components.len() && !component_count_matches(shape, components, k) {
        &&& e matches Error::WrongComponentsCount { context: c, axis, axis_len, count }
        &&& c@ == context
        &&& 1 <= (axis as int) &&& (axis as int) <= components.len()
        &&& !component_count_matches(shape, components, axis as int - 1)
        &&& forall|k: int| 0 <= k < axis as int - 1 ==> component_count_matches(
            shape,
            components,
            k,
        )
        &&& axis_len == shape[axis as int]
        &&& count as int == components[axis as int - 1].count() as int
    } else if !properties_count_matches(shape, components, properties) {
        &&& e matches Error::WrongPropertiesCount { context: c, axis, axis_len, count }
        &&& c@ == context
        &&& axis as int == components.len() + 1
        &&& axis_len == shape[axis as int]
        &&& count as int == properties.count() as int
    } else {
        false
    }
}

/// Validate the shape of a data array against a full set of labels.
pub fn check_data_and_labels(
    context: &str,
    data: &DataArray,
    samples: &Labels,
    components: &Vec<Arc<Labels>>,
    properties: &Labels,
) -> (r: Result<(), Error>)
    requires
        components@.len() + 2 <= usize::MAX,
    ensures
        r.is_ok() <==> data_labels_ok(
            data@.shape,
            samples@,
            components.deep_view(),
            properties@,
        ),
        r matches Err(e) ==> is_data_labels_error(
            e,
            context@,
            data@.shape,
            samples@,
            components.deep_view(),
            properties@,
        ),
{
    let shape = data.shape();
    let ghost comps = components.deep_view();

    if shape.len() != components.len() + 2 {
        return Err(
            Error::WrongDimensionsCount {
                context: context.to_owned(),
                rank: shape.len(),
                labels_count: components.len() + 2,
            },
        );
    }

    if shape[0] != samples.count() {
        return Err(
            Error::WrongSamplesCount {
                context: context.to_owned(),
                axis_len: shape[0],
                count: samples.count(),
            },
        );
    }

    // ensure that all component labels have different names
    let mut j: usize = 1;
    while j < components.len()
        invariant
            1 <= j || comps.len() == 0,
            j <= comps.len() || comps.len() == 0,
            comps == components.deep_view(),
            rank_matches(data@.shape, comps),
            samples_count_matches(data@.shape, samples@),
            forall|x: int, y: int| 0 <= x < y < j && y < comps.len() ==> (#[trigger] comps[x]).names
                != (#[trigger] comps[y]).names,
        decreases components.len() - j,
    {
        let mut i: usize = 0;
        while i < j
            invariant
                i <= j < comps.len(),
                comps == components.deep_view(),
                rank_matches(data@.shape, comps),
                samples_count_matches(data@.shape, samples@),
                forall|x: int| 0 <= x < i ==> (#[trigger] comps[x]).names != comps[j as int].names,
            decreases j - i,
        {
            if names_equal(components[i].names(), components[j].names()) {
                proof {
                    assert(comps[i as int].names == comps[j as int].names);
                    assert(!component_names_unique(comps));
                }
                return Err(Error::DuplicateComponentNames { context: context.to_owned() });
            }
            i = i + 1;
        }
        j = j + 1;
    }
    proof {
        assert(component_names_unique(comps));
    }

    let mut dimension: usize = 1;
    let mut k: usize = 0;
    while k < components.len()
        invariant
            k <= comps.len(),
            comps.len() + 2 <= usize::MAX,
            dimension == k + 1,
            comps == components.deep_view(),
            rank_matches(data@.shape, comps),
            samples_count_matches(data@.shape, samples@),
            component_names_unique(comps),
            forall|x: int| 0 <= x < k ==> component_count_matches(data@.shape, comps, x),
        decreases components.len() - k,
    {
        if data.shape()[dimension] != components[k].count() {
            proof {
                assert(!component_count_matches(data@.shape, comps, k as int));
            }
            return Err(
                Error::WrongComponentsCount {
                    context: context.to_owned(),
                    axis: dimension,
                    axis_len: data.shape()[dimension],
                    count: components[k].count(),
                },
            );
        }
        proof {
            assert(component_count_matches(data@.shape, comps, k as int));
        }
        dimension = dimension + 1;
        k = k + 1;
    }

    if data.shape()[dimension] != properties.count() {
        return Err(
            Error::WrongPropertiesCount {
                context: context.to_owned(),
                axis: dimension,
                axis_len: data.shape()[dimension],
                count: properties.count(),
            },
        );
    }

    Ok(())
}

/// Every component label set has exactly one column.
pub open spec fn all_single_dimension(components: Seq<LabelsView>) -> bool {
    forall|i: int| 0 <= i < components.len() ==> (#[trigger] components[i]).names.len() == 1
}

/// The exact error reported when a component label set has more than one
/// column: the first offender, with its width and names.
pub open spec fn is_single_dimension_error(e: Error, components: Seq<LabelsView>) -> bool {
    &&& e matches Error::NotSingleDimension { size, names, index }
    &&& 0 <= (index as int) &&& (index as int) < components.len()
    &&& components[index as int].names.len() != 1
    &&& forall|i: int| 0 <= i < index as int ==> (#[trigger] components[i]).names.len() == 1
    &&& size as int == components[index as int].names.len() as int
    &&& names.deep_view() == components[index as int].names
}

/// Validate that each component label set has a single column: a component
/// axis can not itself be a compound key.
pub fn check_component_labels(components: &Vec<Arc<Labels>>) -> (r: Result<(), Error>)
    ensures
        r.is_ok() <==> all_single_dimension(components.deep_view()),
        r matches Err(e) ==> is_single_dimension_error(e, components.deep_view()),
{
    let ghost comps = components.deep_view();
    let mut i: usize = 0;
    while i < components.len()
        invariant
            i <= comps.len(),
            comps == components.deep_view(),
            forall|x: int| 0 <= x < i ==> (#[trigger] comps[x]).names.len() == 1,
        decreases components.len() - i,
    {
        if components[i].size() != 1 {
            proof {
                assert(comps[i as int].names.len() != 1);
            }
            return Err(
                Error::NotSingleDimension {
                    size: components[i].size(),
                    names: copy_names(components[i].names()),
                    index: i,
                },
            );
        }
        i = i + 1;
    }
    Ok(())
}

/// Some component label set has exactly these column names.
pub open spec fn has_matching_component(comps: Seq<LabelsView>, dims: Seq<Seq<char>>) -> bool {
    exists|i: int| 0 <= i < comps.len() && (#[trigger] comps[i]).names == dims
}

/// The index of the component label set with exactly these column names
/// (unique when component names are unique).
pub open spec fn matching_component(comps: Seq<LabelsView>, dims: Seq<Seq<char>>) -> int {
    choose|i: int| 0 <= i < comps.len() && (#[trigger] comps[i]).names == dims
}

/// The ordered Cartesian product of the moved component's rows with the old
/// property rows: the moved row varies slowest, the old property row varies
/// fastest, and each new row is the moved row followed by the property row.
pub open spec fn cartesian_rows(moved: Seq<Seq<int>>, props: Seq<Seq<int>>) -> Seq<Seq<int>> {
    Seq::new(
        moved.len() * props.len(),
        |t: int| moved[t / props.len() as int] + props[t % props.len() as int],
    )
}

/// Row `i * props.len() + j` of the Cartesian product is the moved row `i`
/// followed by the old property row `j`.
pub proof fn lemma_cartesian_rows_index(
    moved: Seq<Seq<int>>,
    props: Seq<Seq<int>>,
    i: int,
    j: int,
)
    requires
        0 <= i < moved.len(),
        0 <= j < props.len(),
    ensures
        cartesian_rows(moved, props).len() == moved.len() * props.len(),
        0 <= i * props.len() + j < moved.len() * props.len(),
        cartesian_rows(moved, props)[i * props.len() + j] == moved[i] + props[j],
{
    let p = props.len() as int;
    let t = i * p + j;
    assert(0 <= t && t < moved.len() * p) by (nonlinear_arith)
        requires
            0 <= i < moved.len(),
            0 <= j < p,
            t == i * p + j,
    ;
    vstd::arithmetic::div_mod::lemma_fundamental_div_mod_converse(t, p, i, j);
}

/// Position `t` of `rows` is the concatenation of a moved row `a` and an old
/// property row `b`, standing at the product position `a * props.len() + b`.
pub open spec fn row_is_product(
    rows: Seq<Seq<int>>,
    t: int,
    moved: Seq<Seq<int>>,
    props: Seq<Seq<int>>,
) -> bool {
    exists|a: int, b: int|
        0 <= a < moved.len() && 0 <= b < props.len() && t == a * props.len() + b && rows[t]
            == moved[a] + props[b]
}

/// Concatenation of rows is injective once the width of the first part is
/// fixed: equal concatenations have equal parts.
pub proof fn lemma_concat_parts(a1: Seq<int>, b1: Seq<int>, a2: Seq<int>, b2: Seq<int>)
    requires
        a1.len() == a2.len(),
        a1 + b1 == a2 + b2,
    ensures
        a1 == a2,
        b1 == b2,
{
    assert((a1 + b1).len() == (a2 + b2).len());
    assert forall|k: int| 0 <= k < a1.len() implies a1[k] == a2[k] by {
        assert((a1 + b1)[k] == a1[k]);
        assert((a2 + b2)[k] == a2[k]);
    }
    assert(a1 =~= a2);
    assert((a1 + b1).len() == a1.len() + b1.len());
    assert((a2 + b2).len() == a2.len() + b2.len());
    assert(b1.len() == b2.len());
    assert forall|k: int| 0 <= k < b1.len() implies b1[k] == b2[k] by {
        assert((a1 + b1)[a1.len() + k] == b1[k]);
        assert((a2 + b2)[a2.len() + k] == b2[k]);
    }
    assert(b1 =~= b2);
}

/// How a block after axis migration relates to the block before it: the
/// samples are the same shared labels, the matched component is gone, the
/// properties are the Cartesian product, and the array lost the moved axis
/// while its last axis grew by the moved component's row count.
pub open spec fn axis_migrated(pre: BasicBlock, post: BasicBlock, dims: Seq<Seq<char>>) -> bool {
    let mi = matching_component(pre.comps(), dims);
    let moved = pre.comps()[mi];
    let props = pre.properties@;
    let rank = pre.data@.shape.len() as int;
    &&& post.samples == pre.samples
    &&& post.comps() == pre.comps().remove(mi)
    &&& post.properties@.names == moved.names + props.names
    &&& post.properties@.rows == cartesian_rows(moved.rows, props.rows)
    &&& post.data@.origin == pre.data@.origin
    &&& post.data@.shape.len() == rank - 1
    &&& forall|ax: int| 0 <= ax < mi + 1 ==> (#[trigger] post.data@.shape[ax])
        == pre.data@.shape[ax]
    &&& forall|ax: int| mi + 1 <= ax < rank - 2 ==> (#[trigger] post.data@.shape[ax])
        == pre.data@.shape[ax + 1]
    &&& post.data@.shape[rank - 2] as int == moved.count() * props.count()
}

/// A valid block stays valid across axis migration.
proof fn lemma_migrated_block_wf(pre: BasicBlock, post: BasicBlock, dims: Seq<Seq<char>>)
    requires
        pre.wf(),
        has_matching_component(pre.comps(), dims),
        axis_migrated(pre, post, dims),
    ensures
        post.wf(),
{
    let mi = matching_component(pre.comps(), dims);
    assert(0 <= mi < pre.comps().len() && pre.comps()[mi].names == dims);
    let k = pre.comps().len() as int;
    let shape = post.data@.shape;
    assert(post.comps().len() == k - 1);
    assert(samples_count_matches(shape, post.samples@));
    assert forall|x: int, y: int| 0 <= x < y < post.comps().len() implies (
    #[trigger] post.comps()[x]).names != (#[trigger] post.comps()[y]).names by {
        let x0 = if x < mi {
            x
        } else {
            x + 1
        };
        let y0 = if y < mi {
            y
        } else {
            y + 1
        };
        assert(post.comps()[x] == pre.comps()[x0]);
        assert(post.comps()[y] == pre.comps()[y0]);
        assert(pre.comps()[x0].names != pre.comps()[y0].names);
    }
    assert forall|x: int| 0 <= x < post.comps().len() implies component_count_matches(
        shape,
        post.comps(),
        x,
    ) by {
        if x < mi {
            assert(post.comps()[x] == pre.comps()[x]);
            assert(shape[x + 1] == pre.data@.shape[x + 1]);
            assert(component_count_matches(pre.data@.shape, pre.comps(), x));
        } else {
            assert(post.comps()[x] == pre.comps()[x + 1]);
            assert(x + 1 < (k + 2) - 2);
            assert(shape[x + 1] == pre.data@.shape[x + 2]);
            assert(component_count_matches(pre.data@.shape, pre.comps(), x + 1));
        }
    }
    assert(post.properties@.count() == cartesian_rows(
        pre.comps()[mi].rows,
        pre.properties@.rows,
    ).len());
    assert(properties_count_matches(shape, post.comps(), post.properties@));
    assert forall|x: int| 0 <= x < post.comps().len() implies (#[trigger] post.comps()[x]).names.len()
        == 1 by {
        let x0 = if x < mi {
            x
        } else {
            x + 1
        };
        assert(post.comps()[x] == pre.comps()[x0]);
        assert(pre.comps()[x0].names.len() == 1);
    }
}

/// A single data array with the labels describing each of its axes.
#[derive(Debug)]
pub struct BasicBlock {
    pub data: DataArray,
    pub samples: Arc<Labels>,
    pub components: ImmutableVec<Arc<Labels>>,
    pub properties: Arc<Labels>,
}

impl BasicBlock {
    /// The views of the component label sets, in axis order.
    pub open spec fn comps(&self) -> Seq<LabelsView> {
        self.components.deep_view()
    }

    /// Validity: the array shape matches the labels, and every component
    /// has a single column.
    pub open spec fn wf(&self) -> bool {
        &&& data_labels_ok(self.data@.shape, self.samples@, self.comps(), self.properties@)
        &&& all_single_dimension(self.comps())
    }

    /// Create a new `BasicBlock`, validating the shape of data & labels.
    pub fn new(
        data: DataArray,
        samples: Arc<Labels>,
        components: Vec<Arc<Labels>>,
        properties: Arc<Labels>,
    ) -> (r: Result<BasicBlock, Error>)
        requires
            components@.len() + 2 <= usize::MAX,
        ensures
            r.is_ok() <==> (data_labels_ok(
                data@.shape,
                samples@,
                components.deep_view(),
                properties@,
            ) && all_single_dimension(components.deep_view())),
            r matches Ok(b) ==> b.data == data && b.samples == samples && b.components@
                == components@ && b.properties == properties && b.wf(),
            r matches Err(e) ==> !data_labels_ok(
                data@.shape,
                samples@,
                components.deep_view(),
                properties@,
            ) ==> is_data_labels_error(
                e,
                "data and labels don't match"@,
                data@.shape,
                samples@,
                components.deep_view(),
                properties@,
            ),
            r matches Err(e) ==> data_labels_ok(
                data@.shape,
                samples@,
                components.deep_view(),
                properties@,
            ) ==> is_single_dimension_error(e, components.deep_view()),
    {
        match check_data_and_labels(
            "data and labels don't match",
            &data,
            &samples,
            &components,
            &properties,
        ) {
            Ok(()) => {},
            Err(e) => {
                return Err(e);
            },
        }

        match check_component_labels(&components) {
            Ok(()) => {},
            Err(e) => {
                return Err(e);
            },
        }

        let b = BasicBlock {
            data,
            samples,
            components: ImmutableVec::from_vec(components),
            properties,
        };
        proof {
            assert(b.comps() =~= components.deep_view());
        }
        Ok(b)
    }

    /// Move the component whose column names are exactly `dimensions` into
    /// the properties: the new properties are the Cartesian product of the
    /// moved component's rows (varying slowest) with the old property rows
    /// (varying fastest), and the array drops the component axis while its
    /// last axis grows by the same factor.
    pub fn components_to_properties(&mut self, dimensions: &Vec<String>) -> (r: Result<(), Error>)
        requires
            old(self).wf(),
            dimensions@.len() > 0,
        ensures
            r.is_ok() <==> can_migrate(*old(self), dimensions.deep_view()),
            r.is_ok() ==> axis_migrated(*old(self), *final(self), dimensions.deep_view()) && final(self).wf(),
            r.is_err() ==> *final(self) == *old(self),
            !has_matching_component(old(self).comps(), dimensions.deep_view()) ==> (r matches Err(
                Error::ComponentNotFound { names },
            ) && names.deep_view() == dimensions.deep_view()),
            has_matching_component(old(self).comps(), dimensions.deep_view()) && r.is_err()
                ==> r matches Err(Error::DuplicateName { .. }),
    {
        let ghost dims = dimensions.deep_view();
        let ghost comps0 = self.comps();

        // locate the component to move, by exact, order-sensitive name match
        let mut found: Option<usize> = None;
        let mut ci: usize = 0;
        while ci < self.components.len()
            invariant
                ci <= comps0.len(),
                comps0 == self.components.deep_view(),
                dims == dimensions.deep_view(),
                match found {
                    Some(c) => c < comps0.len() && comps0[c as int].names == dims,
                    None => forall|x: int| 0 <= x < ci ==> (#[trigger] comps0[x]).names != dims,
                },
            decreases self.components@.len() - ci,
        {
            if found.is_none() && names_equal(self.components.get(ci).names(), dimensions) {
                found = Some(ci);
            }
            ci = ci + 1;
        }

        let component_axis: usize = match found {
            Some(c) => c,
            None => {
                proof {
                    assert(!has_matching_component(comps0, dims));
                }
                return Err(Error::ComponentNotFound { names: copy_names(dimensions) });
            },
        };
        proof {
            assert(comps0[component_axis as int].names == dims);
            assert(has_matching_component(comps0, dims));
            let w = matching_component(comps0, dims);
            assert(0 <= w < comps0.len() && comps0[w].names == dims);
            if w != component_axis as int {
                assert(comps0[w].names == comps0[component_axis as int].names);
                assert(component_names_unique(comps0));
                assert(false);
            }
            assert(matching_component(comps0, dims) == component_axis as int);
        }

        let moved_component: &Arc<Labels> = self.components.get(component_axis);
        let ghost moved = moved_component@;
        let ghost props = self.properties@;
        proof {
            use_type_invariant(&**moved_component);
            use_type_invariant(&*self.properties);
        }
        let ghost w1 = moved.names.len();

        // construct the new properties from the moved component and the old
        // properties; nothing is modified until every step that can fail has
        // succeeded
        let new_names = concat_names(moved_component.names(), self.properties.names());
        let mut builder = match LabelsBuilder::new(new_names) {
            Ok(builder) => builder,
            Err(e) => {
                return Err(e);
            },
        };

        let m = moved_component.count();
        let p = self.properties.count();
        let mut i: usize = 0;
        while i < m
            invariant
                i <= m,
                moved_component@ == moved,
                self.properties@ == props,
                m as int == moved.rows.len(),
                p as int == props.rows.len(),
                moved.wf(),
                props.wf(),
                w1 == moved.names.len(),
                builder@.wf(),
                builder@.names == moved.names + props.names,
                builder@.rows.len() == i as int * p as int,
                forall|t: int| 0 <= t < builder@.rows.len() ==> row_is_product(
                    builder@.rows,
                    t,
                    moved.rows,
                    props.rows,
                ),
            decreases m - i,
        {
            let moved_row = moved_component.row(i);
            let mut j: usize = 0;
            while j < p
                invariant
                    j <= p,
                    i < m,
                    moved_component@ == moved,
                    self.properties@ == props,
                    m as int == moved.rows.len(),
                    p as int == props.rows.len(),
                    moved.wf(),
                    props.wf(),
                    w1 == moved.names.len(),
                    moved_row.deep_view() == moved.rows[i as int],
                    builder@.wf(),
                    builder@.names == moved.names + props.names,
                    builder@.rows.len() == i as int * p as int + j as int,
                    forall|t: int| 0 <= t < builder@.rows.len() ==> row_is_product(
                        builder@.rows,
                        t,
                        moved.rows,
                        props.rows,
                    ),
                decreases p - j,
            {
                let row = concat_rows(moved_row, self.properties.row(j));
                let ghost pre = builder@;
                proof {
                    let cur = i as int * p as int + j as int;
                    assert(row.deep_view() == moved.rows[i as int] + props.rows[j as int]);
                    assert(row.deep_view().len() == builder@.names.len());
                    assert forall|t: int| 0 <= t < pre.rows.len() implies pre.rows[t]
                        != row.deep_view() by {
                        assert(row_is_product(pre.rows, t, moved.rows, props.rows));
                        let (a, b) = choose|a: int, b: int|
                            0 <= a < moved.rows.len() && 0 <= b < props.rows.len() && t == a
                                * props.rows.len() + b && pre.rows[t] == moved.rows[a]
                                + props.rows[b];
                        if pre.rows[t] == row.deep_view() {
                            lemma_concat_parts(
                                moved.rows[a],
                                props.rows[b],
                                moved.rows[i as int],
                                props.rows[j as int],
                            );
                            assert(moved.rows[a] == moved.rows[i as int]);
                            assert(a == i as int);
                            assert(b == j as int);
                            assert(t == cur);
                            assert(false);
                        }
                    }
                    assert(!pre.has_row(row.deep_view()));
                }
                builder.add_unique(&row);
                proof {
                    let cur = i as int * p as int + j as int;
                    assert(builder@.rows == pre.rows.push(
                        moved.rows[i as int] + props.rows[j as int],
                    ));
                    assert forall|t: int| 0 <= t < builder@.rows.len() implies row_is_product(
                        builder@.rows,
                        t,
                        moved.rows,
                        props.rows,
                    ) by {
                        if t < cur {
                            assert(row_is_product(pre.rows, t, moved.rows, props.rows));
                            let (a, b) = choose|a: int, b: int|
                                0 <= a < moved.rows.len() && 0 <= b < props.rows.len() && t == a
                                    * props.rows.len() + b && pre.rows[t] == moved.rows[a]
                                    + props.rows[b];
                            assert(builder@.rows[t] == pre.rows[t]);
                            assert(builder@.rows[t] == moved.rows[a] + props.rows[b]);
                        } else {
                            assert(t == cur);
                            assert(builder@.rows[t] == moved.rows[i as int] + props.rows[j as int]);
                        }
                    }
                }
                j = j + 1;
            }
            proof {
                assert((i as int + 1) * p as int == i as int * p as int + p as int)
                    by (nonlinear_arith);
            }
            i = i + 1;
        }
        proof {
            assert(builder@.rows.len() == m as int * p as int);
        }
        let new_properties = builder.finish();
        let ghost newp = new_properties@;
        proof {
            if p > 0 {
                assert forall|t: int| 0 <= t < newp.rows.len() implies newp.rows[t]
                    == cartesian_rows(moved.rows, props.rows)[t] by {
                    assert(row_is_product(newp.rows, t, moved.rows, props.rows));
                    let (a, b) = choose|a: int, b: int|
                        0 <= a < moved.rows.len() && 0 <= b < props.rows.len() && t == a
                            * props.rows.len() + b && newp.rows[t] == moved.rows[a] + props.rows[b];
                    vstd::arithmetic::div_mod::lemma_fundamental_div_mod_converse(
                        t,
                        props.rows.len() as int,
                        a,
                        b,
                    );
                }
            }
            assert(newp.rows =~= cartesian_rows(moved.rows, props.rows));
        }

        // compute the new shape: drop the moved axis, grow the last axis
        let shape = self.data.shape();
        let mut new_shape: Vec<usize> = Vec::new();
        let mut s: usize = 0;
        while s < shape.len()
            invariant
                s <= shape@.len(),
                new_shape@ == shape@.take(s as int),
            decreases shape@.len() - s,
        {
            new_shape.push(shape[s]);
            proof {
                assert(new_shape@ =~= shape@.take(s + 1));
            }
            s = s + 1;
        }
        proof {
            assert(shape@.take(shape@.len() as int) =~= shape@);
        }
        let properties_axis = new_shape.len() - 1;
        new_shape.set(properties_axis, new_properties.count());
        new_shape.remove(component_axis + 1);
        let ghost target_shape = new_shape@;

        // the new shape holds exactly as many elements as the old one: the
        // moved axis length was folded into the last axis
        let ghost old_shape = self.data@.shape;
        let ghost rank = old_shape.len() as int;
        let ghost ca = component_axis as int;
        proof {
            let mv = old_shape[ca + 1];
            let pv = old_shape[rank - 1];
            let cv = target_shape[rank - 2];
            let front = old_shape.subrange(0, ca + 1);
            let mid = old_shape.subrange(ca + 2, rank - 1);
            assert(old_shape =~= front + seq![mv] + mid + seq![pv]);
            assert(target_shape =~= front + mid + seq![cv]);
            assert(moved == comps0[ca]);
            assert(component_count_matches(old_shape, comps0, ca));
            assert(properties_count_matches(old_shape, comps0, props));
            assert(mv as int == m as int && pv as int == p as int);
            assert(cv as int == m as int * p as int);
            crate::data::lemma_element_count_singleton(mv);
            crate::data::lemma_element_count_singleton(pv);
            crate::data::lemma_element_count_singleton(cv);
            crate::data::lemma_element_count_concat(front, seq![mv]);
            crate::data::lemma_element_count_concat(front + seq![mv], mid);
            crate::data::lemma_element_count_concat(front + seq![mv] + mid, seq![pv]);
            crate::data::lemma_element_count_concat(front, mid);
            crate::data::lemma_element_count_concat(front + mid, seq![cv]);
            let f = crate::data::element_count(front);
            let d = crate::data::element_count(mid);
            assert(f * (mv as int) * d * (pv as int) == (f * d) * ((mv as int) * (pv as int)))
                by (nonlinear_arith);
            assert(crate::data::element_count(target_shape) == crate::data::element_count(
                old_shape,
            ));
        }

        // apply: swap the moved axis next to the property axis, then merge
        // the two by reshaping
        let swapped = self.data.swap_axes(component_axis + 1, properties_axis - 1);
        proof {
            assert(swapped.is_ok());
        }
        match swapped {
            Ok(()) => {},
            Err(e) => {
                return Err(e);
            },
        }
        proof {
            crate::data::lemma_element_count_swap(old_shape, ca + 1, rank - 2);
            assert(crate::data::element_count(self.data@.shape) == crate::data::element_count(
                old_shape,
            ));
        }
        let reshaped = self.data.reshape(new_shape);
        proof {
            assert(reshaped.is_ok());
        }
        match reshaped {
            Ok(()) => {},
            Err(e) => {
                return Err(e);
            },
        }

        let mut kept: Vec<Arc<Labels>> = Vec::new();
        let mut c: usize = 0;
        while c < self.components.len()
            invariant
                c <= self.components@.len(),
                component_axis < self.components@.len(),
                c <= component_axis ==> kept@ == self.components@.take(c as int),
                c > component_axis ==> kept@ == self.components@.take(c as int).remove(
                    component_axis as int,
                ),
            decreases self.components@.len() - c,
        {
            if c != component_axis {
                kept.push(Arc::clone(self.components.get(c)));
            }
            proof {
                if c + 1 <= component_axis {
                    assert(kept@ =~= self.components@.take(c + 1));
                } else {
                    assert(kept@ =~= self.components@.take(c + 1).remove(component_axis as int));
                }
            }
            c = c + 1;
        }
        proof {
            assert(self.components@.take(self.components@.len() as int) =~= self.components@);
        }
        self.components = ImmutableVec::from_vec(kept);
        self.properties = Arc::new(new_properties);

        proof {
            assert(self.comps() =~= old(self).comps().remove(component_axis as int));
            assert(self.data@.shape == target_shape);
            assert(axis_migrated(*old(self), *self, dims));
            lemma_migrated_block_wf(*old(self), *self, dims);
        }
        Ok(())
    }

    /// Try to copy this `BasicBlock`: the array is cloned, the labels are
    /// shared (not copied).
    pub fn try_clone(&self) -> (r: Result<BasicBlock, Error>)
        ensures
            r matches Ok(b) && b.data@ == self.data@ && b.samples == self.samples && b.components@
                == self.components@ && b.properties == self.properties,
            self.wf() ==> (r matches Ok(b) && b.wf()),
    {
        let data = match self.data.try_clone() {
            Ok(data) => data,
            Err(e) => {
                return Err(e);
            },
        };

        let mut components: Vec<Arc<Labels>> = Vec::new();
        let mut i: usize = 0;
        while i < self.components.len()
            invariant
                i <= self.components@.len(),
                components@ == self.components@.take(i as int),
            decreases self.components@.len() - i,
        {
            components.push(Arc::clone(self.components.get(i)));
            proof {
                assert(components@ =~= self.components@.take(i + 1));
            }
            i = i + 1;
        }
        proof {
            assert(self.components@.take(self.components@.len() as int) =~= self.components@);
        }

        let b = BasicBlock {
            data,
            samples: Arc::clone(&self.samples),
            components: ImmutableVec::from_vec(components),
            properties: Arc::clone(&self.properties),
        };
        proof {
            if self.wf() {
                assert(b.comps() =~= self.comps());
            }
        }
        Ok(b)
    }
}

/// The block can undergo axis migration for these column names: one of its
/// components matches them exactly, and folding that component into the
/// properties gives no duplicate column name.
pub open spec fn can_migrate(b: BasicBlock, dims: Seq<Seq<char>>) -> bool {
    &&& has_matching_component(b.comps(), dims)
    &&& all_distinct(b.comps()[matching_component(b.comps(), dims)].names + b.properties@.names)
}

/// The cross-consistency rules between a values block and one of its
/// gradients: same array origin, gradient samples indexed by a leading
/// `"sample"` column, gradient components ending in exactly the values
/// components, and the same property labels.
pub open spec fn grad_wf(values: BasicBlock, g: BasicBlock) -> bool {
    &&& g.data@.origin == values.data@.origin
    &&& g.samples@.names.len() >= 1
    &&& g.samples@.names[0] == "sample"@
    &&& g.comps().len() >= values.comps().len()
    &&& g.comps().skip(g.comps().len() - values.comps().len()) == values.comps()
    &&& g.properties@ == values.properties@
}

/// A gradient of a block that can undergo axis migration can undergo the
/// same migration: its matching component is the one aligned with the
/// values' matching component, and holds the same labels.
pub proof fn lemma_gradient_can_migrate(values: BasicBlock, g: BasicBlock, dims: Seq<Seq<char>>)
    requires
        values.wf(),
        g.wf(),
        grad_wf(values, g),
        can_migrate(values, dims),
    ensures
        can_migrate(g, dims),
        matching_component(g.comps(), dims) == g.comps().len() - values.comps().len()
            + matching_component(values.comps(), dims),
        g.comps()[matching_component(g.comps(), dims)] == values.comps()[matching_component(
            values.comps(),
            dims,
        )],
{
    let vi = matching_component(values.comps(), dims);
    assert(0 <= vi < values.comps().len() && values.comps()[vi].names == dims);
    let extra = g.comps().len() - values.comps().len();
    assert(g.comps().skip(extra as int)[vi] == values.comps()[vi]);
    assert(g.comps()[extra + vi] == values.comps()[vi]);
    assert(has_matching_component(g.comps(), dims));
    let gi = matching_component(g.comps(), dims);
    assert(0 <= gi < g.comps().len() && g.comps()[gi].names == dims);
    if gi != extra + vi {
        assert(g.comps()[gi].names == g.comps()[extra + vi].names);
        assert(component_names_unique(g.comps()));
        assert(false);
    }
    assert(g.comps()[gi].names + g.properties@.names == values.comps()[vi].names
        + values.properties@.names);
}

/// Applying the same axis migration to a values block and to one of its
/// gradients keeps the two cross-consistent.
pub proof fn lemma_gradient_migrated_wf(
    pv: BasicBlock,
    nv: BasicBlock,
    pg: BasicBlock,
    ng: BasicBlock,
    dims: Seq<Seq<char>>,
)
    requires
        pv.wf(),
        pg.wf(),
        grad_wf(pv, pg),
        can_migrate(pv, dims),
        axis_migrated(pv, nv, dims),
        axis_migrated(pg, ng, dims),
    ensures
        grad_wf(nv, ng),
{
    lemma_gradient_can_migrate(pv, pg, dims);
    let vi = matching_component(pv.comps(), dims);
    let gi = matching_component(pg.comps(), dims);
    let extra = pg.comps().len() - pv.comps().len();
    assert(gi == extra + vi);
    assert(ng.comps().len() - nv.comps().len() == extra);
    assert forall|x: int| 0 <= x < nv.comps().len() implies ng.comps().skip(extra as int)[x]
        == nv.comps()[x] by {
        assert(ng.comps().skip(extra as int)[x] == ng.comps()[extra + x]);
        if x < vi {
            assert(ng.comps()[extra + x] == pg.comps()[extra + x]);
            assert(pg.comps().skip(extra as int)[x] == pg.comps()[extra + x]);
            assert(nv.comps()[x] == pv.comps()[x]);
        } else {
            assert(ng.comps()[extra + x] == pg.comps()[extra + x + 1]);
            assert(pg.comps().skip(extra as int)[x + 1] == pg.comps()[extra + x + 1]);
            assert(nv.comps()[x] == pv.comps()[x + 1]);
        }
    }
    assert(ng.comps().skip(extra as int) =~= nv.comps());
    assert(ng.samples@ == pg.samples@);
    assert(ng.properties@.names == nv.properties@.names);
    assert(ng.properties@.rows == nv.properties@.rows);
    assert(ng.properties@ == nv.properties@);
}

/// The second block could be the result of `try_clone` on the first: an
/// independent array with the same origin and shape, and the same shared
/// labels.
pub open spec fn block_cloned(a: BasicBlock, b: BasicBlock) -> bool {
    &&& b.data@ == a.data@
    &&& b.samples == a.samples
    &&& b.components@ == a.components@
    &&& b.properties == a.properties
}

/// A copy of a block describes the same labels and stays valid.
pub proof fn lemma_cloned_block_wf(a: BasicBlock, b: BasicBlock)
    requires
        block_cloned(a, b),
    ensures
        b.comps() == a.comps(),
        a.wf() ==> b.wf(),
{
    assert(b.comps() =~= a.comps());
}

/// A single block of a tensor map: the values data and metadata, together
/// with any gradients of the values with respect to named parameters.
#[derive(Debug)]
pub struct TensorBlock {
    values: BasicBlock,
    gradients: Vec<(String, BasicBlock)>,
}

/// How a whole block after axis migration relates to the block before it:
/// the values and every gradient, under its unchanged parameter name, went
/// through the same migration.
pub open spec fn tensor_migrated(pre: TensorBlock, post: TensorBlock, dims: Seq<Seq<char>>) -> bool {
    &&& axis_migrated(pre.spec_values(), post.spec_values(), dims)
    &&& post.spec_gradients().len() == pre.spec_gradients().len()
    &&& forall|i: int| 0 <= i < pre.spec_gradients().len() ==> (#[trigger] post.spec_gradients()[i]).0
        == pre.spec_gradients()[i].0 && axis_migrated(
        pre.spec_gradients()[i].1,
        post.spec_gradients()[i].1,
        dims,
    )
}

/// Every rule a new gradient must satisfy before it is stored: a fresh,
/// non-reserved parameter name, the same array origin as the values, samples
/// led by a `"sample"` column, single-column components ending in exactly
/// the values' components, and a shape that matches its labels (with the
/// values' properties as the last axis).
pub open spec fn add_gradient_ok(
    t: TensorBlock,
    parameter: Seq<char>,
    gorigin: usize,
    gshape: Seq<usize>,
    gsamples: LabelsView,
    gcomps: Seq<LabelsView>,
) -> bool {
    let v = t.spec_values();
    &&& !t.has_gradient(parameter)
    &&& gorigin == v.data@.origin
    &&& parameter.len() > 0
    &&& parameter != "values"@
    &&& gsamples.names.len() >= 1
    &&& gsamples.names[0] == "sample"@
    &&& all_single_dimension(gcomps)
    &&& v.comps().len() <= gcomps.len()
    &&& forall|i: int| 0 <= i < v.comps().len() ==> gcomps[gcomps.len() - v.comps().len() + i] == (
    #[trigger] v.comps()[i])
    &&& data_labels_ok(gshape, gsamples, gcomps, v.properties@)
}

/// The exact error `add_gradient` reports: the first of its checks (in
/// their order) that does not hold.
pub open spec fn is_add_gradient_error(
    e: Error,
    t: TensorBlock,
    parameter: Seq<char>,
    gorigin: usize,
    gshape: Seq<usize>,
    gsamples: LabelsView,
    gcomps: Seq<LabelsView>,
) -> bool {
    let v = t.spec_values();
    if t.has_gradient(parameter) {
        e matches Error::GradientAlreadyDefined { parameter: p } && p@ == parameter
    } else if gorigin != v.data@.origin {
        &&& e matches Error::DifferentOrigin { gradient, values }
        &&& gradient == gorigin
        &&& values == v.data@.origin
    } else if parameter.len() == 0 {
        e matches Error::EmptyGradientName
    } else if parameter == "values"@ {
        e matches Error::ReservedGradientName
    } else if gsamples.names.len() == 0 {
        e matches Error::GradientSamplesWithoutNames
    } else if gsamples.names[0] != "sample"@ {
        e matches Error::WrongGradientSamplesName { name } && name@ == gsamples.names[0]
    } else if !all_single_dimension(gcomps) {
        is_single_dimension_error(e, gcomps)
    } else if v.comps().len() > gcomps.len() {
        e matches Error::NotEnoughGradientComponents
    } else if exists|i: int|
        0 <= i < v.comps().len() && gcomps[gcomps.len() - v.comps().len() + i] != (
        #[trigger] v.comps()[i]) {
        &&& e matches Error::GradientComponentsMismatch { component, names }
        &&& 0 <= (component as int)
        &&& (component as int) < v.comps().len()
        &&& gcomps[gcomps.len() - v.comps().len() + component] != v.comps()[component as int]
        &&& forall|x: int| 0 <= x < component as int ==> gcomps[gcomps.len() - v.comps().len() + x]
            == (#[trigger] v.comps()[x])
        &&& names.deep_view() == v.comps()[component as int].names
    } else if !data_labels_ok(gshape, gsamples, gcomps, v.properties@) {
        is_data_labels_error(
            e,
            "gradient data and labels don't match"@,
            gshape,
            gsamples,
            gcomps,
            v.properties@,
        )
    } else {
        false
    }
}

/// How a block with a freshly added gradient relates to the block before
/// it: the values and the existing gradients are untouched, and the new
/// gradient stands last, under its parameter name, sharing the values'
/// property labels.
pub open spec fn gradient_added(
    pre: TensorBlock,
    post: TensorBlock,
    parameter: Seq<char>,
    data: DataArray,
    samples: Arc<Labels>,
    components: Seq<Arc<Labels>>,
) -> bool {
    &&& post.spec_values() == pre.spec_values()
    &&& post.spec_gradients().len() == pre.spec_gradients().len() + 1
    &&& forall|i: int| 0 <= i < pre.spec_gradients().len() ==> (#[trigger] post.spec_gradients()[i])
        == pre.spec_gradients()[i]
    &&& post.spec_gradients().last().0@ == parameter
    &&& post.spec_gradients().last().1.data == data
    &&& post.spec_gradients().last().1.samples == samples
    &&& post.spec_gradients().last().1.components@ == components
    &&& post.spec_gradients().last().1.properties == pre.spec_values().properties
}

impl TensorBlock {
    /// The values block.
    pub closed spec fn spec_values(&self) -> BasicBlock {
        self.values
    }

    /// The gradients, each under its parameter name, in insertion order.
    pub closed spec fn spec_gradients(&self) -> Seq<(String, BasicBlock)> {
        self.gradients@
    }

    /// The gradient parameter names, in insertion order.
    pub open spec fn gradient_names(&self) -> Seq<Seq<char>> {
        Seq::new(self.spec_gradients().len(), |i: int| self.spec_gradients()[i].0@)
    }

    /// A gradient with respect to this parameter is stored in the block.
    pub open spec fn has_gradient(&self, parameter: Seq<char>) -> bool {
        exists|i: int|
            0 <= i < self.spec_gradients().len() && (#[trigger] self.spec_gradients()[i]).0@
                == parameter
    }

    /// Validity: the values block is valid, every gradient is a valid block
    /// that is cross-consistent with the values, and parameter names are
    /// unique.
    pub open spec fn wf(&self) -> bool {
        &&& self.spec_values().wf()
        &&& forall|i: int| 0 <= i < self.spec_gradients().len() ==> (
        #[trigger] self.spec_gradients()[i]).1.wf() && grad_wf(
            self.spec_values(),
            self.spec_gradients()[i].1,
        )
        &&& all_distinct(self.gradient_names())
    }

    /// Create a new `TensorBlock` holding the given data, described by the
    /// `samples`, `components` and `properties` labels. The block starts
    /// without any gradients.
    pub fn new(
        data: DataArray,
        samples: Arc<Labels>,
        components: Vec<Arc<Labels>>,
        properties: Arc<Labels>,
    ) -> (r: Result<TensorBlock, Error>)
        requires
            components@.len() + 2 <= usize::MAX,
        ensures
            r.is_ok() <==> (data_labels_ok(
                data@.shape,
                samples@,
                components.deep_view(),
                properties@,
            ) && all_single_dimension(components.deep_view())),
            r matches Ok(t) ==> t.wf() && t.spec_gradients() =~= Seq::<(String, BasicBlock)>::empty()
                && t.spec_values().data == data && t.spec_values().samples == samples
                && t.spec_values().components@ == components@ && t.spec_values().properties
                == properties,
            r matches Err(e) ==> !data_labels_ok(
                data@.shape,
                samples@,
                components.deep_view(),
                properties@,
            ) ==> is_data_labels_error(
                e,
                "data and labels don't match"@,
                data@.shape,
                samples@,
                components.deep_view(),
                properties@,
            ),
            r matches Err(e) ==> data_labels_ok(
                data@.shape,
                samples@,
                components.deep_view(),
                properties@,
            ) ==> is_single_dimension_error(e, components.deep_view()),
    {
        let values = match BasicBlock::new(data, samples, components, properties) {
            Ok(values) => values,
            Err(e) => {
                return Err(e);
            },
        };
        let t = TensorBlock { values, gradients: Vec::new() };
        proof {
            assert(t.gradient_names() =~= Seq::<Seq<char>>::empty());
        }
        Ok(t)
    }

    /// Get the values data and metadata in this block.
    pub fn values(&self) -> (r: &BasicBlock)
        ensures
            *r == self.spec_values(),
    {
        &self.values
    }

    /// Get read-write access to the values data and metadata in this block.
    pub fn values_mut(&mut self) -> (r: &mut BasicBlock)
        ensures
            *r == old(self).spec_values(),
            final(self).spec_values() == *final(r),
            final(self).spec_gradients() == old(self).spec_gradients(),
    {
        &mut self.values
    }

    /// Get all gradients defined in this block, each under its parameter
    /// name, in insertion order.
    pub fn gradients(&self) -> (r: &Vec<(String, BasicBlock)>)
        ensures
            r@ == self.spec_gradients(),
    {
        &self.gradients
    }

    /// Get the gradient with respect to the given parameter, if it exists.
    pub fn gradient(&self, parameter: &str) -> (r: Option<&BasicBlock>)
        ensures
            match r {
                Some(g) => exists|i: int|
                    0 <= i < self.spec_gradients().len()
                        && (#[trigger] self.spec_gradients()[i]).0@ == parameter@
                        && *g == self.spec_gradients()[i].1,
                None => !self.has_gradient(parameter@),
            },
    {
        let mut i: usize = 0;
        while i < self.gradients.len()
            invariant
                i <= self.spec_gradients().len(),
                forall|x: int| 0 <= x < i ==> (#[trigger] self.spec_gradients()[x]).0@
                    != parameter@,
            decreases self.spec_gradients().len() - i,
        {
            if str_equal(self.gradients[i].0.as_str(), parameter) {
                return Some(&self.gradients[i].1);
            }
            i = i + 1;
        }
        None
    }

    /// Get read-write access to the gradient with respect to the given
    /// parameter, if it exists.
    pub fn gradient_mut(&mut self, parameter: &str) -> (r: Option<&mut BasicBlock>)
        ensures
            match r {
                Some(g) => exists|i: int|
                    {
                        &&& 0 <= i < old(self).spec_gradients().len()
                        &&& (#[trigger] old(self).spec_gradients()[i]).0@ == parameter@
                        &&& *g == old(self).spec_gradients()[i].1
                        &&& final(self).spec_gradients() == old(self).spec_gradients().update(
                            i,
                            (old(self).spec_gradients()[i].0, *final(g)),
                        )
                        &&& final(self).spec_values() == old(self).spec_values()
                    },
                None => !old(self).has_gradient(parameter@) && *final(self) == *old(self),
            },
    {
        let mut i: usize = 0;
        while i < self.gradients.len()
            invariant
                *self == *old(self),
                i <= self.spec_gradients().len(),
                forall|x: int| 0 <= x < i ==> (#[trigger] self.spec_gradients()[x]).0@
                    != parameter@,
            decreases self.spec_gradients().len() - i,
        {
            if str_equal(self.gradients[i].0.as_str(), parameter) {
                return Some(&mut self.gradients[i].1);
            }
            i = i + 1;
        }
        None
    }

    /// Try to copy this `TensorBlock`: the values array and every gradient
    /// array is cloned; all-or-nothing, with no partial state on failure.
    pub fn try_clone(&self) -> (r: Result<TensorBlock, Error>)
        ensures
            r matches Ok(t) && block_cloned(self.spec_values(), t.spec_values())
                && t.spec_gradients().len() == self.spec_gradients().len() && (forall|i: int|
                0 <= i < self.spec_gradients().len() ==> (#[trigger] t.spec_gradients()[i]).0
                    == self.spec_gradients()[i].0 && block_cloned(
                    self.spec_gradients()[i].1,
                    t.spec_gradients()[i].1,
                )) && (self.wf() ==> t.wf()),
    {
        let values = match self.values.try_clone() {
            Ok(values) => values,
            Err(e) => {
                return Err(e);
            },
        };
        let mut gradients: Vec<(String, BasicBlock)> = Vec::new();
        let mut i: usize = 0;
        while i < self.gradients.len()
            invariant
                i <= self.spec_gradients().len(),
                gradients@.len() == i,
                forall|x: int| 0 <= x < i ==> (#[trigger] gradients@[x]).0
                    == self.spec_gradients()[x].0 && block_cloned(
                    self.spec_gradients()[x].1,
                    gradients@[x].1,
                ),
            decreases self.spec_gradients().len() - i,
        {
            let cloned = match self.gradients[i].1.try_clone() {
                Ok(cloned) => cloned,
                Err(e) => {
                    return Err(e);
                },
            };
            gradients.push((self.gradients[i].0.clone(), cloned));
            i = i + 1;
        }
        let t = TensorBlock { values, gradients };
        proof {
            if self.wf() {
                lemma_cloned_block_wf(self.spec_values(), t.spec_values());
                assert forall|x: int| 0 <= x < t.spec_gradients().len() implies (
                #[trigger] t.spec_gradients()[x]).1.wf() && grad_wf(
                    t.spec_values(),
                    t.spec_gradients()[x].1,
                ) by {
                    lemma_cloned_block_wf(self.spec_gradients()[x].1, t.spec_gradients()[x].1);
                }
                assert(t.gradient_names() =~= self.gradient_names());
            }
        }
        Ok(t)
    }

    /// Add a gradient with respect to `parameter` to this block. The
    /// gradient's property labels are the values' property labels, shared.
    pub fn add_gradient(
        &mut self,
        parameter: &str,
        data: DataArray,
        samples: Arc<Labels>,
        components: Vec<Arc<Labels>>,
    ) -> (r: Result<(), Error>)
        requires
            old(self).wf(),
            components@.len() + 2 <= usize::MAX,
        ensures
            r.is_ok() <==> add_gradient_ok(
                *old(self),
                parameter@,
                data@.origin,
                data@.shape,
                samples@,
                components.deep_view(),
            ),
            r.is_ok() ==> gradient_added(
                *old(self),
                *final(self),
                parameter@,
                data,
                samples,
                components@,
            ) && final(self).wf(),
            r matches Err(e) ==> is_add_gradient_error(
                e,
                *old(self),
                parameter@,
                data@.origin,
                data@.shape,
                samples@,
                components.deep_view(),
            ) && *final(self) == *old(self),
    {
        let ghost gcomps = components.deep_view();
        let mut i: usize = 0;
        while i < self.gradients.len()
            invariant
                *self == *old(self),
                i <= self.spec_gradients().len(),
                forall|x: int| 0 <= x < i ==> (#[trigger] self.spec_gradients()[x]).0@
                    != parameter@,
            decreases self.spec_gradients().len() - i,
        {
            if str_equal(self.gradients[i].0.as_str(), parameter) {
                return Err(Error::GradientAlreadyDefined { parameter: parameter.to_owned() });
            }
            i = i + 1;
        }
        proof {
            assert(!old(self).has_gradient(parameter@));
        }

        if data.origin() != self.values.data.origin() {
            return Err(
                Error::DifferentOrigin {
                    gradient: data.origin(),
                    values: self.values.data.origin(),
                },
            );
        }

        if parameter.is_empty() {
            return Err(Error::EmptyGradientName);
        }

        // this name is reserved to mean the values themselves
        if str_equal(parameter, "values") {
            return Err(Error::ReservedGradientName);
        }

        if samples.size() == 0 {
            return Err(Error::GradientSamplesWithoutNames);
        }

        if !str_equal(samples.names()[0].as_str(), "sample") {
            return Err(Error::WrongGradientSamplesName { name: samples.names()[0].clone() });
        }

        match check_component_labels(&components) {
            Ok(()) => {},
            Err(e) => {
                return Err(e);
            },
        }

        if self.values.components.len() > components.len() {
            return Err(Error::NotEnoughGradientComponents);
        }

        // the gradient may prepend extra components; the trailing ones must
        // be exactly the values' components
        let vlen = self.values.components.len();
        let extra = components.len() - vlen;
        let mut ci: usize = 0;
        while ci < vlen
            invariant
                *self == *old(self),
                ci <= vlen,
                vlen == old(self).spec_values().comps().len(),
                extra + vlen == gcomps.len(),
                extra + vlen <= usize::MAX,
                gcomps == components.deep_view(),
                !old(self).has_gradient(parameter@),
                data@.origin == old(self).spec_values().data@.origin,
                parameter@.len() > 0,
                parameter@ != "values"@,
                samples@.names.len() >= 1,
                samples@.names[0] == "sample"@,
                all_single_dimension(gcomps),
                forall|x: int| 0 <= x < ci ==> gcomps[extra + x] == (
                #[trigger] old(self).spec_values().comps()[x]),
            decreases vlen - ci,
        {
            let gradient_labels: &Arc<Labels> = &components[extra + ci];
            if !labels_equal(&**gradient_labels, &**self.values.components.get(ci)) {
                proof {
                    assert(gcomps[extra + ci] != old(self).spec_values().comps()[ci as int]);
                }
                return Err(
                    Error::GradientComponentsMismatch {
                        component: ci,
                        names: copy_names(self.values.components.get(ci).names()),
                    },
                );
            }
            ci = ci + 1;
        }

        match check_data_and_labels(
            "gradient data and labels don't match",
            &data,
            &*samples,
            &components,
            &*self.values.properties,
        ) {
            Ok(()) => {},
            Err(e) => {
                return Err(e);
            },
        }

        let properties = Arc::clone(&self.values.properties);
        let block = BasicBlock {
            data,
            samples,
            components: ImmutableVec::from_vec(components),
            properties,
        };
        proof {
            assert(block.comps() =~= gcomps);
            assert(block.comps().skip(extra as int) =~= old(self).spec_values().comps());
        }
        self.gradients.push((parameter.to_owned(), block));
        proof {
            assert(self.spec_gradients() == old(self).spec_gradients().push(
                self.spec_gradients().last(),
            ));
            assert(self.gradient_names() =~= old(self).gradient_names().push(parameter@));
        }
        Ok(())
    }

    /// Move the component whose column names are exactly `dimensions` into
    /// the properties, for the values and for every gradient, so that all
    /// the arrays stay shape-consistent with each other. An empty name list
    /// is a no-op; the whole operation either applies everywhere or leaves
    /// the block untouched.
    pub fn components_to_properties(&mut self, dimensions: &Vec<String>) -> (r: Result<(), Error>)
        requires
            old(self).wf(),
        ensures
            dimensions@.len() == 0 ==> r.is_ok() && *final(self) == *old(self),
            dimensions@.len() > 0 ==> (r.is_ok() <==> can_migrate(
                old(self).spec_values(),
                dimensions.deep_view(),
            )),
            dimensions@.len() > 0 && r.is_ok() ==> tensor_migrated(
                *old(self),
                *final(self),
                dimensions.deep_view(),
            ) && final(self).wf(),
            r.is_err() ==> *final(self) == *old(self),
            dimensions@.len() > 0 && !has_matching_component(
                old(self).spec_values().comps(),
                dimensions.deep_view(),
            ) ==> (r matches Err(Error::ComponentNotFound { names }) && names.deep_view()
                == dimensions.deep_view()),
            dimensions@.len() > 0 && has_matching_component(
                old(self).spec_values().comps(),
                dimensions.deep_view(),
            ) && r.is_err() ==> r matches Err(Error::DuplicateName { .. }),
    {
        if dimensions.len() == 0 {
            return Ok(());
        }
        let ghost dims = dimensions.deep_view();

        match self.values.components_to_properties(dimensions) {
            Ok(()) => {},
            Err(e) => {
                return Err(e);
            },
        }
        let ghost vnew = self.values;

        let mut i: usize = 0;
        while i < self.gradients.len()
            invariant
                old(self).wf(),
                dims == dimensions.deep_view(),
                dims.len() > 0,
                can_migrate(old(self).spec_values(), dims),
                axis_migrated(old(self).spec_values(), vnew, dims),
                vnew.wf(),
                self.values == vnew,
                i <= self.spec_gradients().len(),
                self.spec_gradients().len() == old(self).spec_gradients().len(),
                forall|x: int| 0 <= x < i ==> (#[trigger] self.spec_gradients()[x]).0 == old(
                    self,
                ).spec_gradients()[x].0 && axis_migrated(
                    old(self).spec_gradients()[x].1,
                    self.spec_gradients()[x].1,
                    dims,
                ) && self.spec_gradients()[x].1.wf() && grad_wf(vnew, self.spec_gradients()[x].1),
                forall|x: int| i <= x < self.spec_gradients().len() ==> (
                #[trigger] self.spec_gradients()[x]) == old(self).spec_gradients()[x],
            decreases self.spec_gradients().len() - i,
        {
            proof {
                assert(old(self).spec_gradients()[i as int].1.wf());
                assert(grad_wf(old(self).spec_values(), old(self).spec_gradients()[i as int].1));
                lemma_gradient_can_migrate(
                    old(self).spec_values(),
                    old(self).spec_gradients()[i as int].1,
                    dims,
                );
            }
            let ghost pre_gradients = self.spec_gradients();
            let mut pair = self.gradients.remove(i);
            let moved = pair.1.components_to_properties(dimensions);
            proof {
                assert(moved.is_ok());
            }
            match moved {
                Ok(()) => {},
                Err(e) => {
                    return Err(e);
                },
            }
            proof {
                lemma_gradient_migrated_wf(
                    old(self).spec_values(),
                    vnew,
                    old(self).spec_gradients()[i as int].1,
                    pair.1,
                    dims,
                );
            }
            self.gradients.insert(i, pair);
            proof {
                assert(self.spec_gradients() =~= pre_gradients.update(
                    i as int,
                    self.spec_gradients()[i as int],
                ));
            }
            i = i + 1;
        }
        proof {
            assert(self.gradient_names() =~= old(self).gradient_names());
        }
        Ok(())
    }

    /// The list of gradient parameter names, in insertion order, for a
    /// foreign listing of the gradients.
    pub fn gradient_parameters_c(&self) -> (r: Vec<String>)
        ensures
            r.deep_view() == self.gradient_names(),
    {
        let mut r: Vec<String> = Vec::new();
        let mut i: usize = 0;
        while i < self.gradients.len()
            invariant
                i <= self.spec_gradients().len(),
                r.deep_view() =~= self.gradient_names().take(i as int),
            decreases self.spec_gradients().len() - i,
        {
            let ghost prev = r.deep_view();
            r.push(self.gradients[i].0.clone());
            proof {
                assert(r.deep_view() =~= prev.push(self.gradient_names()[i as int]));
                assert(r.deep_view() =~= self.gradient_names().take(i + 1));
            }
            i = i + 1;
        }
        proof {
            assert(self.gradient_names().take(self.spec_gradients().len() as int)
                =~= self.gradient_names());
        }
        r
    }
}

} // verus!
