//! The values that are read from the renderer as they are written out: numbers,
//! rows of numbers, and poses by the names of their parts.
use crate::custom_material::UniformValue;
use crate::list::List;
use crate::readback::Reading;
use crate::values::{Vec2, Vec3, Vec4, F32};
use vstd::prelude::*;

verus! {

/// A single value.
#[derive(Clone, Copy, PartialEq, Eq, Structural, Debug)]
pub enum Leaf {
    Real(F32),
    Whole(i64),
    Truth(bool),
}

/// A row of numbers under a name.
pub struct NamedRow {
    pub key: &'static str,
    pub row: Vec<Leaf>,
}

/// A value as it is written out.
pub enum ReadingDoc {
    /// What cannot be read.
    Null,
    One(Leaf),
    Row(Vec<Leaf>),
    Named(Vec<NamedRow>),
}

/// A value as it is written out, as a value.
#[verifier::ext_equal]
pub enum DocView {
    Null,
    One(Leaf),
    Row(Seq<Leaf>),
    Named(Seq<(Seq<char>, Seq<Leaf>)>),
}

impl View for ReadingDoc {
    type V = DocView;

    open spec fn view(&self) -> DocView {
        match self {
            ReadingDoc::Null => DocView::Null,
            ReadingDoc::One(x) => DocView::One(*x),
            ReadingDoc::Row(row) => DocView::Row(row@),
            ReadingDoc::Named(rows) => DocView::Named(
                rows@.map_values(|n: NamedRow| (n.key@, n.row@)),
            ),
        }
    }
}

/// Real numbers in a row.
pub open spec fn reals(row: Seq<F32>) -> Seq<Leaf> {
    row.map_values(|x: F32| Leaf::Real(x))
}

/// The numbers of a vector.
pub open spec fn row2(v: Vec2) -> Seq<Leaf> {
    reals(seq![v.x, v.y])
}

/// The numbers of a vector.
pub open spec fn row3(v: Vec3) -> Seq<Leaf> {
    reals(seq![v.x, v.y, v.z])
}

/// The numbers of a vector.
pub open spec fn row4(v: Vec4) -> Seq<Leaf> {
    reals(seq![v.x, v.y, v.z, v.w])
}

/// How the value of a uniform is written out.
pub open spec fn uniform_doc(v: UniformValue) -> DocView {
    match v {
        UniformValue::F32(x) => DocView::One(Leaf::Real(x)),
        UniformValue::U32(x) => DocView::One(Leaf::Whole(x as i64)),
        UniformValue::Bool(x) => DocView::One(Leaf::Truth(x)),
        UniformValue::Vec2(a) => DocView::Row(row2(a)),
        UniformValue::Vec3(a) | UniformValue::Color3(a) => DocView::Row(row3(a)),
        UniformValue::Vec4(a) | UniformValue::Color4(a) => DocView::Row(row4(a)),
        UniformValue::IVec2(a, b) => DocView::Row(
            seq![Leaf::Whole(a as i64), Leaf::Whole(b as i64)],
        ),
        UniformValue::IVec3(a, b, c) => DocView::Row(
            seq![Leaf::Whole(a as i64), Leaf::Whole(b as i64), Leaf::Whole(c as i64)],
        ),
        UniformValue::IVec4(a, b, c, d) => DocView::Row(
            seq![
                Leaf::Whole(a as i64),
                Leaf::Whole(b as i64),
                Leaf::Whole(c as i64),
                Leaf::Whole(d as i64),
            ],
        ),
        UniformValue::Mat3(m) | UniformValue::Mat4(m) => DocView::Row(reals(m@)),
    }
}

/// How a value that was read is written out; what cannot be read is null.
pub open spec fn doc_of(r: Option<Reading>) -> DocView {
    match r {
        None => DocView::Null,
        Some(Reading::Number(x)) => DocView::One(Leaf::Real(x)),
        Some(Reading::Color(c)) => DocView::Row(row3(c)),
        Some(Reading::Pose(t)) => DocView::Named(
            seq![
                ("translation"@, row3(t.translation)),
                ("rotation"@, row4(t.rotation)),
                ("scale"@, row3(t.scale)),
            ],
        ),
        Some(Reading::Matrix(m)) => DocView::Row(reals(m@)),
        Some(Reading::Uniform(s)) => uniform_doc(s.value),
    }
}

fn two(v: Vec2) -> (r: Vec<Leaf>)
    ensures
        r@ == row2(v),
{
    let r = vec![Leaf::Real(v.x), Leaf::Real(v.y)];
    assert(r@ =~= row2(v));
    r
}

fn three(v: Vec3) -> (r: Vec<Leaf>)
    ensures
        r@ == row3(v),
{
    let r = vec![Leaf::Real(v.x), Leaf::Real(v.y), Leaf::Real(v.z)];
    assert(r@ =~= row3(v));
    r
}

fn four(v: Vec4) -> (r: Vec<Leaf>)
    ensures
        r@ == row4(v),
{
    let r = vec![Leaf::Real(v.x), Leaf::Real(v.y), Leaf::Real(v.z), Leaf::Real(v.w)];
    assert(r@ =~= row4(v));
    r
}

fn all_reals(row: &List<F32>) -> (r: Vec<Leaf>)
    ensures
        r@ == reals(row@),
{
    let mut out: Vec<Leaf> = Vec::new();
    let mut i: usize = 0;
    while i < row.len()
        invariant
            i <= row@.len(),
            out@ == reals(row@.take(i as int)),
        decreases row@.len() - i,
    {
        out.push(Leaf::Real(*row.at(i)));
        i += 1;
        assert(out@ =~= reals(row@.take(i as int)));
    }
    assert(row@.take(i as int) =~= row@);
    out
}

fn uniform_value_to_doc(v: &UniformValue) -> (d: ReadingDoc)
    ensures
        d@ == uniform_doc(*v),
{
    match v {
        UniformValue::F32(x) => ReadingDoc::One(Leaf::Real(*x)),
        UniformValue::U32(x) => ReadingDoc::One(Leaf::Whole(*x as i64)),
        UniformValue::Bool(x) => ReadingDoc::One(Leaf::Truth(*x)),
        UniformValue::Vec2(a) => ReadingDoc::Row(two(*a)),
        UniformValue::Vec3(a) | UniformValue::Color3(a) => ReadingDoc::Row(three(*a)),
        UniformValue::Vec4(a) | UniformValue::Color4(a) => ReadingDoc::Row(four(*a)),
        UniformValue::IVec2(a, b) => {
            let row = vec![Leaf::Whole(*a as i64), Leaf::Whole(*b as i64)];
            assert(ReadingDoc::Row(row)@ =~= uniform_doc(*v));
            ReadingDoc::Row(row)
        },
        UniformValue::IVec3(a, b, c) => {
            let row = vec![
                Leaf::Whole(*a as i64),
                Leaf::Whole(*b as i64),
                Leaf::Whole(*c as i64),
            ];
            assert(ReadingDoc::Row(row)@ =~= uniform_doc(*v));
            ReadingDoc::Row(row)
        },
        UniformValue::IVec4(a, b, c, e) => {
            let row = vec![
                Leaf::Whole(*a as i64),
                Leaf::Whole(*b as i64),
                Leaf::Whole(*c as i64),
                Leaf::Whole(*e as i64),
            ];
            assert(ReadingDoc::Row(row)@ =~= uniform_doc(*v));
            ReadingDoc::Row(row)
        },
        UniformValue::Mat3(m) | UniformValue::Mat4(m) => ReadingDoc::Row(all_reals(m)),
    }
}

/// Writes out a value that was read.
pub fn reading_doc(r: &Option<Reading>) -> (d: ReadingDoc)
    ensures
        d@ == doc_of(*r),
{
    match r {
        None => ReadingDoc::Null,
        Some(Reading::Number(x)) => ReadingDoc::One(Leaf::Real(*x)),
        Some(Reading::Color(c)) => ReadingDoc::Row(three(*c)),
        Some(Reading::Pose(t)) => {
            let rows = vec![
                NamedRow { key: "translation", row: three(t.translation) },
                NamedRow { key: "rotation", row: four(t.rotation) },
                NamedRow { key: "scale", row: three(t.scale) },
            ];
            assert(ReadingDoc::Named(rows)@ =~= doc_of(*r));
            ReadingDoc::Named(rows)
        },
        Some(Reading::Matrix(m)) => ReadingDoc::Row(all_reals(m)),
        Some(Reading::Uniform(s)) => uniform_value_to_doc(&s.value),
    }
}

} // verus!
