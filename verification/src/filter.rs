//! The filter engine.
//!
//! Decides which containers are in scope for a cycle. A container is
//! selected when its id is listed in the filters, or its name matches any
//! name pattern, or its image matches any image pattern — any one criterion
//! suffices, and nothing excludes. Empty filters select everything,
//! untouched.

use vstd::prelude::*;
use crate::config::ContainerFilters;
use crate::docker::ContainerInfo;
use crate::pattern::{glob_match, matches_pattern};
use crate::strutil::{contains_id, ids_contain};

verus! {

/// Whether `text` matches at least one of `patterns`.
pub open spec fn any_pattern_matches(patterns: Seq<String>, text: Seq<char>) -> bool {
    exists|i: int| 0 <= i < patterns.len() && glob_match(patterns[i]@, text)
}

/// Whether the filters select this container.
pub open spec fn container_selected(c: ContainerInfo, filters: ContainerFilters) -> bool {
    ids_contain(filters.container_ids@, c.id@)
        || any_pattern_matches(filters.name_patterns@, c.name@)
        || any_pattern_matches(filters.image_patterns@, c.image@)
}

/// Whether the filters are empty, which means everything is in scope.
pub open spec fn filters_empty(filters: ContainerFilters) -> bool {
    filters.container_ids@.len() == 0 && filters.name_patterns@.len() == 0
        && filters.image_patterns@.len() == 0
}

fn matches_any_pattern(patterns: &Vec<String>, text: &str) -> (r: bool)
    ensures
        r == any_pattern_matches(patterns@, text@),
{
    let len = patterns.len();
    let mut i: usize = 0;
    while i < len
        invariant
            i <= len,
            len == patterns@.len(),
            forall|j: int| 0 <= j < i ==> !glob_match(patterns@[j]@, text@),
        decreases len - i,
    {
        if matches_pattern(text, patterns[i].as_str()) {
            assert(glob_match(patterns@[i as int]@, text@));
            return true;
        }
        i = i + 1;
    }
    false
}

/// Whether one container passes the filters.
pub fn container_matches(c: &ContainerInfo, filters: &ContainerFilters) -> (r: bool)
    ensures
        r == container_selected(*c, *filters),
{
    if contains_id(&filters.container_ids, c.id.as_str()) {
        return true;
    }
    if matches_any_pattern(&filters.name_patterns, c.name.as_str()) {
        return true;
    }
    if matches_any_pattern(&filters.image_patterns, c.image.as_str()) {
        return true;
    }
    false
}

/// Keep exactly the selected containers, in their original order.
pub fn apply_filters(containers: Vec<ContainerInfo>, filters: &ContainerFilters) -> (r: Vec<
    ContainerInfo,
>)
    ensures
        r@ == containers@.filter(|c: ContainerInfo| container_selected(c, *filters)),
{
    let ghost pred = |c: ContainerInfo| container_selected(c, *filters);
    let len = containers.len();
    let mut r: Vec<ContainerInfo> = Vec::new();
    let mut i: usize = 0;
    proof {
        assert(containers@.take(0) =~= Seq::<ContainerInfo>::empty());
        assert(containers@.take(0).filter(pred) =~= Seq::<ContainerInfo>::empty());
    }
    while i < len
        invariant
            i <= len,
            len == containers@.len(),
            r@ == containers@.take(i as int).filter(
                |c: ContainerInfo| container_selected(c, *filters),
            ),
        decreases len - i,
    {
        proof {
            assert(containers@.take(i + 1 as int).drop_last() =~= containers@.take(i as int));
            assert(containers@.take(i + 1 as int).last() == containers@[i as int]);
            reveal(Seq::filter);
        }
        if container_matches(&containers[i], filters) {
            r.push(containers[i].clone());
        }
        i = i + 1;
    }
    proof {
        assert(containers@.take(len as int) =~= containers@);
    }
    r
}

/// Select the in-scope containers: with empty filters the whole inventory,
/// unchanged and in order; otherwise exactly the containers the filters
/// select, in order.
pub fn select_containers(containers: Vec<ContainerInfo>, filters: &ContainerFilters) -> (r: Vec<
    ContainerInfo,
>)
    ensures
        filters_empty(*filters) ==> r@ == containers@,
        !filters_empty(*filters) ==> r@ == containers@.filter(
            |c: ContainerInfo| container_selected(c, *filters),
        ),
{
    if filters.container_ids.len() == 0 && filters.name_patterns.len() == 0
        && filters.image_patterns.len() == 0 {
        containers
    } else {
        apply_filters(containers, filters)
    }
}

} // verus!
