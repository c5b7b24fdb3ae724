//! Reading what the runtime's listing command printed.

use crate::discovery::{
    map_row_to_service, service_of, ContainerServiceInfo, DockerPsRow, RowView, ServiceView,
};
use crate::error::{ContainerError, ErrorView};
use crate::text::{
    chars_of, lemma_split_on_nonempty, optional, pieces, range_in, split_on, split_ranges,
    text_of, trim_bounds, trimmed, CharClass,
};
use vstd::prelude::*;

verus! {

/// The text that `String::from_utf8_lossy` makes of `bytes`.
pub uninterp spec fn utf8_lossy(bytes: Seq<u8>) -> Seq<char>;

/// The text of the member `key` of the JSON object that `line` holds: `None`
/// where `line` is not one JSON value, that value has no such member, or the
/// member is not a JSON string.
pub uninterp spec fn json_text_member(line: Seq<char>, key: Seq<char>) -> Option<Seq<char>>;

/// Calls `String::from_utf8_lossy`, which decodes `bytes` as UTF-8 and puts
/// U+FFFD in place of what is not valid. The result is only given a name.
#[verifier::external_body]
fn lossy_text(bytes: &[u8]) -> (text: String)
    ensures
        text@ == utf8_lossy(bytes@),
{
    String::from_utf8_lossy(bytes).into_owned()
}

/// Parses `line` with `serde_json::from_str` into a `serde_json::Value`, looks
/// `key` up with `Value::get` and reads the member as text with
/// `Value::as_str`. The result is only given a name.
#[verifier::external_body]
fn text_member(line: &str, key: &str) -> (member: Option<String>)
    ensures
        optional(member) == json_text_member(line@, key@),
{
    let value = serde_json::from_str::<serde_json::Value>(line).ok()?;
    Some(value.get(key)?.as_str()?.to_owned())
}

pub open spec fn without_carriage_return(s: Seq<char>) -> Seq<char> {
    if s.len() > 0 && s.last() == '\r' {
        s.drop_last()
    } else {
        s
    }
}

/// The lines of `text`. A line ends at a line feed, or at the end of the text;
/// a carriage return just before the line feed belongs to the line ending.
/// Nothing follows the last line feed unless characters do.
pub open spec fn lines_of(text: Seq<char>) -> Seq<Seq<char>> {
    let parts = split_on(text, '\n');
    let n = parts.len();
    Seq::new(
        if parts.last().len() == 0 {
            (n - 1) as nat
        } else {
            n
        },
        |i: int|
            if i < n - 1 {
                without_carriage_return(parts[i])
            } else {
                parts[i]
            },
    )
}

pub open spec fn is_blank(line: Seq<char>) -> bool {
    trimmed(line, CharClass::Whitespace).len() == 0
}

/// The row made of six members, where all six are there.
pub open spec fn row_of_members(
    id: Option<Seq<char>>,
    names: Option<Seq<char>>,
    state: Option<Seq<char>>,
    status: Option<Seq<char>>,
    image: Option<Seq<char>>,
    ports: Option<Seq<char>>,
) -> Option<RowView> {
    if id is Some && names is Some && state is Some && status is Some && image is Some
        && ports is Some {
        Some(
            RowView {
                id: id->0,
                names: names->0,
                state: state->0,
                status: status->0,
                image: image->0,
                ports: ports->0,
            },
        )
    } else {
        None
    }
}

/// The row that a line of the listing holds: a JSON object with the text
/// members `ID`, `Names`, `State`, `Status`, `Image` and `Ports`.
pub open spec fn row_in(line: Seq<char>) -> Option<RowView> {
    row_of_members(
        json_text_member(line, "ID"@),
        json_text_member(line, "Names"@),
        json_text_member(line, "State"@),
        json_text_member(line, "Status"@),
        json_text_member(line, "Image"@),
        json_text_member(line, "Ports"@),
    )
}

/// The row that a line contributes: none for a blank line, none for a line
/// that does not hold a row.
pub open spec fn listed_row(line: Seq<char>) -> Option<RowView> {
    if is_blank(line) {
        None
    } else {
        row_in(line)
    }
}

/// The services that a sequence of lines describes, in the order of the
/// lines. Lines that hold no row are passed over.
pub open spec fn services_of_lines(lines: Seq<Seq<char>>, project: Seq<char>) -> Seq<ServiceView> {
    lines.map_values(|line: Seq<char>| listed_row(line)).filter(
        |row: Option<RowView>| row is Some,
    ).map_values(|row: Option<RowView>| service_of(row->0, project))
}

/// The services that a listing describes.
pub open spec fn services_in(listing: Seq<char>, project: Seq<char>) -> Seq<ServiceView> {
    services_of_lines(lines_of(listing), project)
}

/// What a run of the listing command amounts to: its services when it
/// succeeded, and `CommandFailed` with its error text when it did not.
pub open spec fn listing_outcome(
    success: bool,
    stdout: Seq<char>,
    stderr: Seq<char>,
    project: Seq<char>,
) -> Result<Seq<ServiceView>, ErrorView> {
    if success {
        Ok(services_in(stdout, project))
    } else {
        Err(ErrorView::CommandFailed(stderr))
    }
}

pub open spec fn optional_row(row: Option<DockerPsRow>) -> Option<RowView> {
    match row {
        Some(r) => Some(r@),
        None => None,
    }
}

pub open spec fn service_views(services: Seq<ContainerServiceInfo>) -> Seq<ServiceView> {
    services.map_values(|s: ContainerServiceInfo| s@)
}

pub open spec fn services_result(r: Result<Vec<ContainerServiceInfo>, ContainerError>) -> Result<
    Seq<ServiceView>,
    ErrorView,
> {
    match r {
        Ok(services) => Ok(service_views(services@)),
        Err(e) => Err(e@),
    }
}

/// Bounds of the lines of `chars`.
pub fn line_ranges(chars: &Vec<char>) -> (ranges: Vec<(usize, usize)>)
    ensures
        forall|i: int| 0 <= i < ranges.len() ==> range_in(#[trigger] ranges[i], chars.len() as int),
        pieces(chars@, ranges@) == lines_of(chars@),
{
    let parts = split_ranges(chars, '\n');
    let ghost s = chars@;
    proof {
        lemma_split_on_nonempty(s, '\n');
    }
    let n = parts.len();
    let mut ranges: Vec<(usize, usize)> = Vec::new();
    let mut i: usize = 0;
    while i < n - 1
        invariant
            s == chars@,
            n == parts.len(),
            n >= 1,
            i <= n - 1,
            pieces(s, parts@) == split_on(s, '\n'),
            forall|j: int| 0 <= j < parts.len() ==> range_in(#[trigger] parts[j], s.len() as int),
            forall|j: int| 0 <= j < ranges.len() ==> range_in(#[trigger] ranges[j], s.len() as int),
            ranges.len() == i,
            forall|j: int|
                0 <= j < i ==> #[trigger] pieces(s, ranges@)[j] == without_carriage_return(
                    split_on(s, '\n')[j],
                ),
        decreases n - 1 - i,
    {
        let (from, to) = parts[i];
        assert(range_in(parts[i as int], s.len() as int));
        let ghost part = split_on(s, '\n')[i as int];
        assert(part == pieces(s, parts@)[i as int]);
        let end = if from < to && chars[to - 1] == '\r' {
            to - 1
        } else {
            to
        };
        assert(s.subrange(from as int, end as int) == without_carriage_return(part));
        let ghost before = ranges@;
        ranges.push((from, end));
        assert forall|j: int| 0 <= j < i + 1 implies #[trigger] pieces(s, ranges@)[j]
            == without_carriage_return(split_on(s, '\n')[j]) by {
            if j < i {
                assert(pieces(s, before)[j] == without_carriage_return(split_on(s, '\n')[j]));
            }
        }
        i += 1;
    }
    let (from, to) = parts[n - 1];
    assert(range_in(parts[n - 1], s.len() as int));
    assert(split_on(s, '\n').last() == pieces(s, parts@)[n - 1]);
    let ghost before = ranges@;
    if from < to {
        ranges.push((from, to));
    }
    assert(pieces(s, ranges@) =~= lines_of(s)) by {
        assert forall|j: int| 0 <= j < pieces(s, ranges@).len() implies pieces(s, ranges@)[j]
            == lines_of(s)[j] by {
            if j < n - 1 {
                assert(pieces(s, before)[j] == without_carriage_return(split_on(s, '\n')[j]));
            }
        }
    }
    ranges
}

/// The row made of six members of a line, where all six were found.
pub fn row_from_members(
    id: Option<String>,
    names: Option<String>,
    state: Option<String>,
    status: Option<String>,
    image: Option<String>,
    ports: Option<String>,
) -> (row: Option<DockerPsRow>)
    ensures
        optional_row(row) == row_of_members(
            optional(id),
            optional(names),
            optional(state),
            optional(status),
            optional(image),
            optional(ports),
        ),
{
    match (id, names, state, status, image, ports) {
        (Some(id), Some(names), Some(state), Some(status), Some(image), Some(ports)) => Some(
            DockerPsRow { id, names, state, status, image, ports },
        ),
        _ => None,
    }
}

/// Reads one line of the listing as a row.
pub fn parse_row(line: &str) -> (row: Option<DockerPsRow>)
    ensures
        optional_row(row) == row_in(line@),
{
    row_from_members(
        text_member(line, "ID"),
        text_member(line, "Names"),
        text_member(line, "State"),
        text_member(line, "Status"),
        text_member(line, "Image"),
        text_member(line, "Ports"),
    )
}

/// The services that a listing describes.
pub fn parse_services(listing: &str, project: &str) -> (services: Vec<ContainerServiceInfo>)
    ensures
        service_views(services@) == services_in(listing@, project@),
{
    let chars = chars_of(listing);
    let ranges = line_ranges(&chars);
    let ghost lines = lines_of(chars@);
    let mut services: Vec<ContainerServiceInfo> = Vec::new();
    let mut i: usize = 0;
    proof {
        lemma_no_lines_no_services(project@);
        assert(lines.take(0) == Seq::<Seq<char>>::empty());
        assert(service_views(services@) == Seq::<ServiceView>::empty());
    }
    while i < ranges.len()
        invariant
            i <= ranges.len(),
            lines == lines_of(chars@),
            lines == pieces(chars@, ranges@),
            forall|j: int|
                0 <= j < ranges.len() ==> range_in(#[trigger] ranges[j], chars.len() as int),
            service_views(services@) == services_of_lines(lines.take(i as int), project@),
        decreases ranges.len() - i,
    {
        let (from, to) = ranges[i];
        assert(range_in(ranges[i as int], chars.len() as int));
        let ghost line = lines[i as int];
        assert(line == chars@.subrange(from as int, to as int));
        let (a, b) = trim_bounds(&chars, from, to, CharClass::Whitespace);
        let row = if a < b {
            parse_row(text_of(&chars, from, to).as_str())
        } else {
            None
        };
        proof {
            assert(optional_row(row) == listed_row(line));
            assert(lines.take(i + 1) == lines.take(i as int).push(line));
            lemma_services_of_lines_push(lines.take(i as int), line, project@);
        }
        match row {
            Some(row) => {
                let service = map_row_to_service(row, project);
                assert(service_views(services@.push(service)) == service_views(services@).push(
                    service@,
                ));
                services.push(service);
            },
            None => {},
        }
        i += 1;
    }
    assert(lines.take(ranges.len() as int) == lines);
    services
}

/// Turns what the listing command left behind into services, or into the
/// failure of the whole call when the command did not succeed.
pub fn services_from_text(success: bool, stdout: &str, stderr: &str, project: &str) -> (r: Result<
    Vec<ContainerServiceInfo>,
    ContainerError,
>)
    ensures
        services_result(r) == listing_outcome(success, stdout@, stderr@, project@),
{
    if !success {
        return Err(ContainerError::CommandFailed(stderr.to_owned()));
    }
    Ok(parse_services(stdout, project))
}

/// As [`services_from_text`], from the bytes that the command wrote: both
/// streams are decoded as UTF-8, with U+FFFD for what is not valid.
pub fn services_from_output(success: bool, stdout: &[u8], stderr: &[u8], project: &str) -> (r:
    Result<Vec<ContainerServiceInfo>, ContainerError>)
    ensures
        services_result(r) == listing_outcome(
            success,
            utf8_lossy(stdout@),
            utf8_lossy(stderr@),
            project@,
        ),
{
    if !success {
        let text = lossy_text(stderr);
        return services_from_text(false, "", text.as_str(), project);
    }
    let text = lossy_text(stdout);
    services_from_text(true, text.as_str(), "", project)
}

/// No lines, no services.
pub proof fn lemma_no_lines_no_services(project: Seq<char>)
    ensures
        services_of_lines(Seq::empty(), project) == Seq::<ServiceView>::empty(),
{
    reveal(Seq::filter);
    let rows = Seq::<Seq<char>>::empty().map_values(|line: Seq<char>| listed_row(line));
    assert(rows.len() == 0);
}

/// One more line adds the service of its row at the end, or nothing when it
/// holds no row.
pub proof fn lemma_services_of_lines_push(
    lines: Seq<Seq<char>>,
    line: Seq<char>,
    project: Seq<char>,
)
    ensures
        services_of_lines(lines.push(line), project) == (match listed_row(line) {
            Some(row) => services_of_lines(lines, project).push(service_of(row, project)),
            None => services_of_lines(lines, project),
        }),
{
    let read = |line: Seq<char>| listed_row(line);
    let found = |row: Option<RowView>| row is Some;
    let build = |row: Option<RowView>| service_of(row->0, project);
    let rows = lines.map_values(read);
    assert(lines.push(line).map_values(read) == rows.push(read(line)));
    assert(rows.push(read(line)).drop_last() == rows);
    reveal(Seq::filter);
    if read(line) is Some {
        assert(rows.push(read(line)).filter(found) == rows.filter(found).push(read(line)));
        assert(rows.filter(found).push(read(line)).map_values(build) == rows.filter(
            found,
        ).map_values(build).push(build(read(line))));
    }
}

/// A line that holds no row, wherever it stands among the others, changes
/// nothing about the services that the other lines describe.
pub proof fn lemma_unreadable_line_is_skipped(
    before: Seq<Seq<char>>,
    line: Seq<char>,
    after: Seq<Seq<char>>,
    project: Seq<char>,
)
    requires
        listed_row(line) is None,
    ensures
        services_of_lines(before.push(line) + after, project) == services_of_lines(
            before + after,
            project,
        ),
    decreases after.len(),
{
    if after.len() == 0 {
        assert(before.push(line) + after == before.push(line));
        assert(before + after == before);
        lemma_services_of_lines_push(before, line, project);
    } else {
        let init = after.drop_last();
        let last = after.last();
        assert(before.push(line) + after == (before.push(line) + init).push(last));
        assert(before + after == (before + init).push(last));
        lemma_unreadable_line_is_skipped(before, line, init, project);
        lemma_services_of_lines_push(before.push(line) + init, last, project);
        lemma_services_of_lines_push(before + init, last, project);
    }
}

/// A command that succeeded and printed nothing yields no services, and no
/// failure; a command that did not succeed yields `CommandFailed` with its
/// error text, whatever it printed.
pub proof fn lemma_listing_outcomes(stdout: Seq<char>, stderr: Seq<char>, project: Seq<char>)
    ensures
        listing_outcome(true, Seq::empty(), stderr, project) == Ok::<Seq<ServiceView>, ErrorView>(
            Seq::empty(),
        ),
        listing_outcome(false, stdout, stderr, project) == Err::<Seq<ServiceView>, ErrorView>(
            ErrorView::CommandFailed(stderr),
        ),
{
    let text = Seq::<char>::empty();
    assert(split_on(text, '\n') == seq![text]);
    assert(lines_of(text) == Seq::<Seq<char>>::empty());
    lemma_no_lines_no_services(project);
}

} // verus!
