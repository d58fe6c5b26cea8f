//! Where the tables and charts of an exported workbook go: rows and columns
//! counted from a table's first cell, which must fit a worksheet's indices.

use vstd::prelude::*;

verus! {

/// The row of the dashboard's table headers.
pub const DASHBOARD_HEADER_ROW: u32 = 5;

/// The columns between the dashboard's tables.
pub const DASHBOARD_TABLE_GAP: u16 = 2;

/// The rows between the dashboard's tables and its charts.
pub const DASHBOARD_TABLE_CHART_GAP_ROWS: u32 = 2;

/// The rows between the classification tables and their charts.
pub const CLASSIFICATION_TABLE_GAP_ROWS: u32 = 3;

/// A row or column lies beyond what a worksheet's indices can hold.
#[derive(Clone, Copy, Debug, PartialEq, Eq, Structural)]
pub enum LayoutError {
    RowColumnLimit,
}

/// The row `offset` rows below the table's `index`-th row, when it fits a `u32`.
pub open spec fn spec_sheet_row(index: int, offset: int) -> Result<u32, LayoutError> {
    if index + offset <= u32::MAX {
        Ok((index + offset) as u32)
    } else {
        Err(LayoutError::RowColumnLimit)
    }
}

/// The column `offset` columns right of the table's `index`-th column, when it fits a `u16`.
pub open spec fn spec_sheet_column(index: int, offset: int) -> Result<u16, LayoutError> {
    if index + offset <= u16::MAX {
        Ok((index + offset) as u16)
    } else {
        Err(LayoutError::RowColumnLimit)
    }
}

/// Computes `spec_sheet_row`.
pub fn sheet_row(index: usize, offset: u32) -> (r: Result<u32, LayoutError>)
    ensures
        r == spec_sheet_row(index as int, offset as int),
{
    if index > u32::MAX as usize {
        return Err(LayoutError::RowColumnLimit);
    }
    let row = index as u32;
    match row.checked_add(offset) {
        Some(value) => Ok(value),
        None => Err(LayoutError::RowColumnLimit),
    }
}

/// Computes `spec_sheet_column`.
pub fn sheet_column(index: usize, offset: u16) -> (r: Result<u16, LayoutError>)
    ensures
        r == spec_sheet_column(index as int, offset as int),
{
    if index > u16::MAX as usize {
        return Err(LayoutError::RowColumnLimit);
    }
    let column = index as u16;
    match column.checked_add(offset) {
        Some(value) => Ok(value),
        None => Err(LayoutError::RowColumnLimit),
    }
}

/// The first column of the dashboard's week table: right of the member
/// table, which has a column per week and a total.
pub fn dashboard_week_column(week_count: usize) -> (r: Result<u16, LayoutError>)
    ensures
        r == spec_sheet_column(week_count as int, DASHBOARD_TABLE_GAP + 2),
{
    sheet_column(week_count, DASHBOARD_TABLE_GAP + 2)
}

/// The first column of the dashboard's task table, right of the week table.
/// (A week table that reaches the last columns of a sheet leaves no room for
/// it; such a count is left out.)
pub fn dashboard_task_column(week_count: usize) -> (r: Result<u16, LayoutError>)
    requires
        week_count + 4 > u16::MAX || week_count + 8 <= u16::MAX,
    ensures
        r == (match spec_sheet_column(week_count as int, DASHBOARD_TABLE_GAP + 2) {
            Ok(column) => Ok((column + DASHBOARD_TABLE_GAP + 2) as u16),
            Err(error) => Err(error),
        }),
{
    let column = dashboard_week_column(week_count)?;
    Ok(column + DASHBOARD_TABLE_GAP + 2)
}

/// The row of the dashboard's charts: below the tallest of its tables (the
/// members it shows, at most `maximum_members`, the weeks and the task slices).
pub open spec fn spec_team_dashboard_chart_row(
    member_count: int,
    maximum_members: int,
    week_count: int,
    slice_count: int,
) -> Result<u32, LayoutError> {
    let visible = if member_count < maximum_members { member_count } else { maximum_members };
    let rows = if visible < week_count { week_count } else { visible };
    let rows = if rows < slice_count { slice_count } else { rows };
    spec_sheet_row(rows, DASHBOARD_HEADER_ROW + DASHBOARD_TABLE_CHART_GAP_ROWS)
}

/// Computes `spec_team_dashboard_chart_row`.
pub fn team_dashboard_chart_row(member_count: usize, maximum_members: usize, week_count: usize, slice_count: usize) -> (r:
    Result<u32, LayoutError>)
    ensures
        r == spec_team_dashboard_chart_row(
            member_count as int,
            maximum_members as int,
            week_count as int,
            slice_count as int,
        ),
{
    let visible = if member_count < maximum_members { member_count } else { maximum_members };
    let rows = if visible < week_count { week_count } else { visible };
    let rows = if rows < slice_count { slice_count } else { rows };
    sheet_row(rows, DASHBOARD_HEADER_ROW + DASHBOARD_TABLE_CHART_GAP_ROWS)
}

/// The row of the classification charts: below the longer of the issue type
/// and issue status tables.
pub fn classification_chart_row(type_count: usize, status_count: usize) -> (r: Result<u32, LayoutError>)
    ensures
        r == spec_sheet_row(
            if type_count < status_count { status_count as int } else { type_count as int },
            CLASSIFICATION_TABLE_GAP_ROWS as int,
        ),
{
    let rows = if type_count < status_count { status_count } else { type_count };
    sheet_row(rows, CLASSIFICATION_TABLE_GAP_ROWS)
}

/// The copy keys of the team task sheet's headers, in column order.
pub fn team_task_header_keys() -> (keys: Vec<&'static str>)
    ensures
        keys@.len() == 8,
        keys@[0]@ == "table.issue"@,
        keys@[1]@ == "table.summary"@,
        keys@[2]@ == "reports.export.issueType"@,
        keys@[3]@ == "reports.export.status"@,
        keys@[4]@ == "reports.export.assignee"@,
        keys@[5]@ == "table.entries"@,
        keys@[6]@ == "reports.export.hours"@,
        keys@[7]@ == "reports.export.link"@,
{
    let mut keys: Vec<&'static str> = Vec::new();
    keys.push("table.issue");
    keys.push("table.summary");
    keys.push("reports.export.issueType");
    keys.push("reports.export.status");
    keys.push("reports.export.assignee");
    keys.push("table.entries");
    keys.push("reports.export.hours");
    keys.push("reports.export.link");
    keys
}

} // verus!
