# worklogger

The rules and decisions of the Worklogger desktop client, written in Verus
with their contracts: organization profiles and their validation, the shared
settings document and its revision-checked saves, the desktop settings built
on it, the Jira connection request, the forms that feed it, the periods a
person can look at, and the analytics and texts of personal and team reports.

- `src/` is the verified library. Each module starts with a line on what it
  decides. Modules whose names end in `_laws` hold properties that relate
  several functions; other laws stand beside the functions they are about.
  Calls into std and into the `time` crate that Verus does not read are
  wrapped in small trusted functions whose contracts say what the library
  relies on.
- `app/` is the unverified part: files, the environment, JSON documents
  (serde copies of the library's types) and the text contrast of a branding
  palette, which is computed in floating point.
- `tests/` exercises the library through its public functions.

Dates are Julian day numbers throughout; words of the interface language are
looked up by the caller in the copy resources and passed in. Sets and maps are
held as sorted lists without repeats; the `sets_well_formed` predicates say so,
and the JSON copies in `app/` produce them that way.

Left out: the desktop interface itself (its components are UI code) and the
XLSX and PDF writers of report exports, which write hours as floating-point
cells and draw charts through the workbook and PDF libraries. What those
writers decide with whole numbers and text (sheet positions, week columns,
labels, file names) is in `sheet_layout`, `report_text` and `period_text`.
