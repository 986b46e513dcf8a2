//! Non-empty vectors (`vec1::Vec1`) of the kinds the game keeps, and what
//! they hold.
use std::sync::Arc;
use vec1::{Size0Error, Vec1};
use vstd::prelude::*;

use crate::interpreter::parser::Node;
use crate::levels::base::{GameLevel, TestCase};
use crate::levels::config::{JLevel, JSection, Section};

verus! {

/// `vec1::Vec1`: a `Vec` with at least one element.
#[verifier::external_type_specification]
#[verifier::external_body]
#[verifier::reject_recursive_types(I)]
pub struct ExVec1<I>(vec1::Vec1<I>);

/// `vec1::Size0Error`: what refuses a `Vec1` of no element.
#[verifier::external_type_specification]
#[verifier::external_body]
pub struct ExSize0Error(vec1::Size0Error);

/// The pairs a `Vec1` of string pairs holds, in order.
pub uninterp spec fn pairs_in(v: Vec1<(String, String)>) -> Seq<(String, String)>;

/// The strings a `Vec1` of strings holds, in order.
pub uninterp spec fn strings_in(v: Vec1<String>) -> Seq<String>;

/// The levels a `Vec1` of configured levels holds, in order.
pub uninterp spec fn jlevels_in(v: Vec1<JLevel>) -> Seq<JLevel>;

/// The sections a `Vec1` of configured sections holds, in order.
pub uninterp spec fn jsections_in(v: Vec1<JSection>) -> Seq<JSection>;

/// The test cases a `Vec1` of test cases holds, in order.
pub uninterp spec fn test_cases_in(v: Vec1<TestCase>) -> Seq<TestCase>;

/// The game levels a `Vec1` of shared game levels holds, in order.
pub uninterp spec fn game_levels_in(v: Vec1<Arc<GameLevel>>) -> Seq<Arc<GameLevel>>;

/// The sections a `Vec1` of sections holds, in order.
pub uninterp spec fn sections_in(v: Vec1<Section>) -> Seq<Section>;

/// The lines a `Vec1` of lines of characters holds, in order.
pub uninterp spec fn lines_in(v: Vec1<Vec<char>>) -> Seq<Vec<char>>;

/// The terms a `Vec1` of terms holds, in order.
pub uninterp spec fn terms_in(v: Vec1<Box<Node>>) -> Seq<Box<Node>>;

/// `Vec1::as_vec`: the vector underneath, which holds the pairs, at least one.
#[verifier::external_body]
pub(crate) fn pairs_vec(v: &Vec1<(String, String)>) -> (r: &Vec<(String, String)>)
    ensures
        r@ == pairs_in(*v),
        r@.len() > 0,
{
    v.as_vec()
}

/// `Vec1::as_vec`: the vector underneath, which holds the strings, at least one.
#[verifier::external_body]
pub(crate) fn strings_vec(v: &Vec1<String>) -> (r: &Vec<String>)
    ensures
        r@ == strings_in(*v),
        r@.len() > 0,
{
    v.as_vec()
}

/// `Vec1::as_vec`: the vector underneath, which holds the levels, at least one.
#[verifier::external_body]
pub(crate) fn jlevels_vec(v: &Vec1<JLevel>) -> (r: &Vec<JLevel>)
    ensures
        r@ == jlevels_in(*v),
        r@.len() > 0,
{
    v.as_vec()
}

/// `Vec1::as_vec`: the vector underneath, which holds the sections, at least one.
#[verifier::external_body]
pub(crate) fn jsections_vec(v: &Vec1<JSection>) -> (r: &Vec<JSection>)
    ensures
        r@ == jsections_in(*v),
        r@.len() > 0,
{
    v.as_vec()
}

/// `Vec1::as_vec`: the vector underneath, which holds the test cases, at least one.
#[verifier::external_body]
pub(crate) fn test_cases_vec(v: &Vec1<TestCase>) -> (r: &Vec<TestCase>)
    ensures
        r@ == test_cases_in(*v),
        r@.len() > 0,
{
    v.as_vec()
}

/// `Vec1::as_vec`: the vector underneath, which holds the game levels, at least one.
#[verifier::external_body]
pub(crate) fn game_levels_vec(v: &Vec1<Arc<GameLevel>>) -> (r: &Vec<Arc<GameLevel>>)
    ensures
        r@ == game_levels_in(*v),
        r@.len() > 0,
{
    v.as_vec()
}

/// `Vec1::as_vec`: the vector underneath, which holds the sections, at least one.
#[verifier::external_body]
pub(crate) fn sections_vec(v: &Vec1<Section>) -> (r: &Vec<Section>)
    ensures
        r@ == sections_in(*v),
        r@.len() > 0,
{
    v.as_vec()
}

/// `Vec1::as_vec`: the vector underneath, which holds the lines, at least one.
#[verifier::external_body]
pub(crate) fn lines_vec(v: &Vec1<Vec<char>>) -> (r: &Vec<Vec<char>>)
    ensures
        r@ == lines_in(*v),
        r@.len() > 0,
{
    v.as_vec()
}

/// `Vec1::into_vec`: the vector underneath, which holds the lines, at least one.
#[verifier::external_body]
pub(crate) fn lines_into_vec(v: Vec1<Vec<char>>) -> (r: Vec<Vec<char>>)
    ensures
        r@ == lines_in(v),
        r@.len() > 0,
{
    v.into_vec()
}

/// `Vec1::try_from_vec`: the strings of `v`, refused when there are none.
#[verifier::external_body]
pub(crate) fn strings_vec1(v: Vec<String>) -> (r: Result<Vec1<String>, Size0Error>)
    ensures
        match r {
            Ok(w) => strings_in(w) == v@,
            Err(_) => v@.len() == 0,
        },
{
    Vec1::try_from_vec(v)
}

/// `Vec1::try_from_vec`: the test cases of `v`, refused when there are none.
#[verifier::external_body]
pub(crate) fn test_cases_vec1(v: Vec<TestCase>) -> (r: Result<Vec1<TestCase>, Size0Error>)
    ensures
        match r {
            Ok(w) => test_cases_in(w) == v@,
            Err(_) => v@.len() == 0,
        },
{
    Vec1::try_from_vec(v)
}

/// `Vec1::try_from_vec`: the game levels of `v`, refused when there are none.
#[verifier::external_body]
pub(crate) fn game_levels_vec1(v: Vec<Arc<GameLevel>>) -> (r: Result<Vec1<Arc<GameLevel>>, Size0Error>)
    ensures
        match r {
            Ok(w) => game_levels_in(w) == v@,
            Err(_) => v@.len() == 0,
        },
{
    Vec1::try_from_vec(v)
}

/// `Vec1::try_from_vec`: the sections of `v`, refused when there are none.
#[verifier::external_body]
pub(crate) fn sections_vec1(v: Vec<Section>) -> (r: Result<Vec1<Section>, Size0Error>)
    ensures
        match r {
            Ok(w) => sections_in(w) == v@,
            Err(_) => v@.len() == 0,
        },
{
    Vec1::try_from_vec(v)
}

/// `Vec1::try_from_vec`: the lines of `v`, refused when there are none.
#[verifier::external_body]
pub(crate) fn lines_vec1(v: Vec<Vec<char>>) -> (r: Result<Vec1<Vec<char>>, Size0Error>)
    ensures
        match r {
            Ok(w) => lines_in(w) == v@,
            Err(_) => v@.len() == 0,
        },
{
    Vec1::try_from_vec(v)
}

/// `Vec1::try_from_vec`: the terms of `v`, refused when there are none.
#[verifier::external_body]
pub(crate) fn terms_vec1(v: Vec<Box<Node>>) -> (r: Result<Vec1<Box<Node>>, Size0Error>)
    ensures
        match r {
            Ok(w) => terms_in(w) == v@,
            Err(_) => v@.len() == 0,
        },
{
    Vec1::try_from_vec(v)
}

} // verus!
