//! What the chart does with the pointer and with changes to its data.
use vstd::prelude::*;

verus! {

/// The point group under the pointer: the group whose label is nearest,
/// where the pointer lies within the axes and that group exists; -1 otherwise.
pub open spec fn entity_group_index_spec(inside_axes: bool, nearest: nat, group_count: nat) -> int {
    if inside_axes && nearest < group_count {
        nearest as int
    } else {
        -1
    }
}

/// Finds the point group under the pointer, given whether the pointer lies
/// within the rectangle of the two axes, the index of the nearest x-axis
/// label, and the number of point groups.
pub fn entity_group_index(inside_axes: bool, nearest: usize, group_count: usize) -> (r: i64)
    requires
        group_count <= i64::MAX,
    ensures
        r == entity_group_index_spec(inside_axes, nearest as nat, group_count as nat),
        r == -1 || 0 <= r < group_count,
        inside_axes && nearest < group_count ==> r == nearest,
        !inside_axes ==> r == -1,
        nearest >= group_count ==> r == -1,
{
    if inside_axes && nearest < group_count {
        nearest as i64
    } else {
        -1
    }
}

/// The hit test finds the group of the nearest label itself whenever the
/// pointer is within the axes and that group exists, and finds no group
/// (-1) otherwise.
pub proof fn lemma_hit_is_the_nearest_group(inside_axes: bool, nearest: nat, group_count: nat)
    ensures
        inside_axes && nearest < group_count ==> entity_group_index_spec(
            inside_axes,
            nearest,
            group_count,
        ) == nearest,
        !(inside_axes && nearest < group_count) ==> entity_group_index_spec(
            inside_axes,
            nearest,
            group_count,
        ) == -1,
{
}

/// Where a change to one cell of the data table goes.
#[derive(Clone, Copy, Debug, PartialEq, Eq, Structural)]
pub enum CellChangeRoute {
    /// The first column holds the x-axis labels.
    XAxisLabel,
    /// Any other column is a channel's values, which the chart base updates.
    Channel,
}

/// Routes a change of the cell in `column_index`.
pub fn route_cell_change(column_index: usize) -> (r: CellChangeRoute)
    ensures
        r == (if column_index == 0 {
            CellChangeRoute::XAxisLabel
        } else {
            CellChangeRoute::Channel
        }),
{
    if column_index == 0 {
        CellChangeRoute::XAxisLabel
    } else {
        CellChangeRoute::Channel
    }
}

/// The formatter of the values in the tooltip: the tooltip's own where the
/// options give one, else the one that formats the y-axis labels.
pub fn tooltip_value_formatter<F>(tooltip: Option<F>, ylabel: Option<F>) -> (r: Option<F>)
    ensures
        r == (match tooltip {
            Some(f) => Some(f),
            None => ylabel,
        }),
{
    match tooltip {
        Some(f) => Some(f),
        None => ylabel,
    }
}

} // verus!
