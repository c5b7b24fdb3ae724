//! Discovery of the services of a deployment group from the runtime's listing.

use crate::text::{
    chars_of, is_ascii_digit, last_index_of, last_position, lemma_last_index_of, pieces,
    prefix_len, range_in, split_on, split_ranges, starts_with, text_of, texts, trim_bounds,
    trimmed, without_prefix, CharClass,
};
use vstd::prelude::*;
use vstd::string::StringExecFns;

verus! {

/// One row of the runtime's listing, as it was printed.
#[derive(Clone, Debug, PartialEq, Eq)]
pub struct DockerPsRow {
    pub id: String,
    pub names: String,
    pub state: String,
    pub status: String,
    pub image: String,
    /// The port mappings, separated by commas.
    pub ports: String,
}

/// One service of a deployment group.
#[derive(Clone, Debug, PartialEq, Eq)]
pub struct ContainerServiceInfo {
    pub container_id: String,
    pub container_name: String,
    pub service: String,
    pub state: String,
    pub status: String,
    pub image: String,
    pub ports: Vec<String>,
    pub compose_project: String,
    pub browser_url: Option<String>,
}

/// Mathematical value of a [`DockerPsRow`].
pub struct RowView {
    pub id: Seq<char>,
    pub names: Seq<char>,
    pub state: Seq<char>,
    pub status: Seq<char>,
    pub image: Seq<char>,
    pub ports: Seq<char>,
}

/// Mathematical value of a [`ContainerServiceInfo`].
pub struct ServiceView {
    pub container_id: Seq<char>,
    pub container_name: Seq<char>,
    pub service: Seq<char>,
    pub state: Seq<char>,
    pub status: Seq<char>,
    pub image: Seq<char>,
    pub ports: Seq<Seq<char>>,
    pub compose_project: Seq<char>,
    pub browser_url: Option<Seq<char>>,
}

impl View for DockerPsRow {
    type V = RowView;

    open spec fn view(&self) -> RowView {
        RowView {
            id: self.id@,
            names: self.names@,
            state: self.state@,
            status: self.status@,
            image: self.image@,
            ports: self.ports@,
        }
    }
}

impl View for ContainerServiceInfo {
    type V = ServiceView;

    open spec fn view(&self) -> ServiceView {
        ServiceView {
            container_id: self.container_id@,
            container_name: self.container_name@,
            service: self.service@,
            state: self.state@,
            status: self.status@,
            image: self.image@,
            ports: texts(self.ports@),
            compose_project: self.compose_project@,
            browser_url: match self.browser_url {
                Some(url) => Some(url@),
                None => None,
            },
        }
    }
}

pub open spec fn all_digits(s: Seq<char>) -> bool {
    forall|i: int| 0 <= i < s.len() ==> is_ascii_digit(#[trigger] s[i])
}

/// The service that a container name stands for within `project`: the name
/// without the prefix `<project>-`, and without what follows its last hyphen
/// when that is made of digits only (a replica index).
pub open spec fn service_name(container_name: Seq<char>, project: Seq<char>) -> Seq<char> {
    let rest = without_prefix(container_name, project.push('-'));
    let cut = last_index_of(rest, '-');
    if 0 <= cut && all_digits(rest.skip(cut + 1)) {
        rest.take(cut)
    } else {
        rest
    }
}

/// The service name that is shown: the derived one, or, where that is empty,
/// the container name without the project at its start and without hyphens at
/// its ends.
pub open spec fn displayed_service(container_name: Seq<char>, project: Seq<char>) -> Seq<char> {
    let service = service_name(container_name, project);
    if service.len() == 0 {
        trimmed(without_prefix(container_name, project), CharClass::Hyphen)
    } else {
        service
    }
}

/// The address under which a service can be reached; none where no service
/// name could be derived.
pub open spec fn browser_url_of(container_name: Seq<char>, project: Seq<char>) -> Option<
    Seq<char>,
> {
    let service = service_name(container_name, project);
    if service.len() == 0 {
        None
    } else {
        Some("http://"@ + service + "."@ + project + ".orb.local"@)
    }
}

/// The entries of a comma-separated list of port mappings: each trimmed of
/// white space, the empty ones left out.
pub open spec fn port_entries(ports: Seq<char>) -> Seq<Seq<char>> {
    split_on(ports, ',').map_values(|p: Seq<char>| trimmed(p, CharClass::Whitespace)).filter(
        |p: Seq<char>| p.len() > 0,
    )
}

/// The service record of a listing row.
pub open spec fn service_of(row: RowView, project: Seq<char>) -> ServiceView {
    ServiceView {
        container_id: row.id,
        container_name: row.names,
        service: displayed_service(row.names, project),
        state: row.state,
        status: row.status,
        image: row.image,
        ports: port_entries(row.ports),
        compose_project: project,
        browser_url: browser_url_of(row.names, project),
    }
}

fn digits_from(chars: &Vec<char>, from: usize) -> (r: bool)
    requires
        from <= chars.len(),
    ensures
        r == all_digits(chars@.skip(from as int)),
{
    let ghost rest = chars@.skip(from as int);
    let mut i: usize = from;
    while i < chars.len()
        invariant
            from <= i <= chars.len(),
            rest == chars@.skip(from as int),
            forall|k: int| 0 <= k < i - from ==> is_ascii_digit(#[trigger] rest[k]),
        decreases chars.len() - i,
    {
        let c = chars[i];
        if !(c >= '0' && c <= '9') {
            assert(rest[i - from] == c);
            return false;
        }
        assert(rest[i - from] == c);
        i += 1;
    }
    true
}

/// Derives the service name of a container from its name and its project.
pub fn derive_service_name(container_name: &str, project: &str) -> (service: String)
    ensures
        service@ == service_name(container_name@, project@),
{
    let name = chars_of(container_name);
    let mut prefix = chars_of(project);
    prefix.push('-');
    let start = prefix_len(&name, &prefix);
    let ghost rest = name@.skip(start as int);
    match last_position(&name, start, '-') {
        Some(cut) => {
            assert(rest.skip(cut - start + 1) == name@.skip(cut + 1));
            if digits_from(&name, cut + 1) {
                assert(rest.take(cut - start) == name@.subrange(start as int, cut as int));
                text_of(&name, start, cut)
            } else {
                assert(rest == name@.subrange(start as int, name.len() as int));
                text_of(&name, start, name.len())
            }
        },
        None => {
            assert(rest == name@.subrange(start as int, name.len() as int));
            text_of(&name, start, name.len())
        },
    }
}

/// The entries of a comma-separated list of port mappings.
pub fn parse_ports(ports: &str) -> (entries: Vec<String>)
    ensures
        texts(entries@) == port_entries(ports@),
{
    let chars = chars_of(ports);
    let ranges = split_ranges(&chars, ',');
    let ghost parts = split_on(chars@, ',');
    let ghost trim = |p: Seq<char>| trimmed(p, CharClass::Whitespace);
    let ghost keep = |p: Seq<char>| p.len() > 0;
    let mut entries: Vec<String> = Vec::new();
    let mut i: usize = 0;
    assert(parts.take(0).map_values(trim).filter(keep) == Seq::<Seq<char>>::empty()) by {
        reveal(Seq::filter);
    }
    assert(texts(entries@) == Seq::<Seq<char>>::empty());
    while i < ranges.len()
        invariant
            i <= ranges.len(),
            parts == split_on(chars@, ','),
            parts == pieces(chars@, ranges@),
            trim == |p: Seq<char>| trimmed(p, CharClass::Whitespace),
            keep == |p: Seq<char>| p.len() > 0,
            forall|j: int|
                0 <= j < ranges.len() ==> range_in(#[trigger] ranges[j], chars.len() as int),
            texts(entries@) == parts.take(i as int).map_values(trim).filter(keep),
        decreases ranges.len() - i,
    {
        let (from, to) = ranges[i];
        assert(range_in(ranges[i as int], chars.len() as int));
        let (a, b) = trim_bounds(&chars, from, to, CharClass::Whitespace);
        proof {
            let done = parts.take(i as int);
            let piece = parts[i as int];
            assert(piece == chars@.subrange(from as int, to as int));
            assert(parts.take(i + 1) == done.push(piece));
            assert(done.push(piece).map_values(trim) == done.map_values(trim).push(trim(piece)));
            assert(done.map_values(trim).push(trim(piece)).drop_last() == done.map_values(trim));
            reveal(Seq::filter);
        }
        if a < b {
            let entry = text_of(&chars, a, b);
            assert(texts(entries@.push(entry)) == texts(entries@).push(entry@));
            entries.push(entry);
        }
        i += 1;
    }
    assert(parts.take(ranges.len() as int) == parts);
    entries
}

/// Builds the service record of a listing row.
pub fn map_row_to_service(row: DockerPsRow, project: &str) -> (info: ContainerServiceInfo)
    ensures
        info@ == service_of(row@, project@),
{
    let service = derive_service_name(row.names.as_str(), project);
    let browser_url = if service.as_str().is_empty() {
        None
    } else {
        let mut url = String::from_str("http://");
        url.append(service.as_str());
        url.append(".");
        url.append(project);
        url.append(".orb.local");
        Some(url)
    };
    let ports = parse_ports(row.ports.as_str());
    let shown = if service.as_str().is_empty() {
        let name = chars_of(row.names.as_str());
        let prefix = chars_of(project);
        let start = prefix_len(&name, &prefix);
        let (a, b) = trim_bounds(&name, start, name.len(), CharClass::Hyphen);
        assert(name@.skip(start as int) == name@.subrange(start as int, name.len() as int));
        text_of(&name, a, b)
    } else {
        service
    };
    ContainerServiceInfo {
        container_id: row.id,
        container_name: row.names.clone(),
        service: shown,
        state: row.state,
        status: row.status,
        image: row.image,
        ports,
        compose_project: project.to_owned(),
        browser_url,
    }
}

/// A container named `<project>-<service>-<index>`, with an index of digits
/// only, stands for `<service>`, whatever hyphens the service name itself
/// holds; and where that name is not empty, the service is reachable under
/// `http://<service>.<project>.orb.local`.
pub proof fn lemma_replica_index_is_stripped(
    project: Seq<char>,
    service: Seq<char>,
    index: Seq<char>,
)
    requires
        all_digits(index),
    ensures
        service_name(project.push('-') + service.push('-') + index, project) == service,
        service.len() > 0 ==> displayed_service(
            project.push('-') + service.push('-') + index,
            project,
        ) == service,
        service.len() > 0 ==> browser_url_of(
            project.push('-') + service.push('-') + index,
            project,
        ) == Some("http://"@ + service + "."@ + project + ".orb.local"@),
{
    let prefix = project.push('-');
    let name = prefix + service.push('-') + index;
    let rest = service.push('-') + index;
    assert(name.take(prefix.len() as int) == prefix);
    assert(starts_with(name, prefix));
    assert(name.skip(prefix.len() as int) == rest);
    assert forall|i: int| service.len() < i < rest.len() implies rest[i] != '-' by {
        assert(rest[i] == index[i - service.len() - 1]);
        assert(is_ascii_digit(index[i - service.len() - 1]));
    }
    assert(rest[service.len() as int] == '-');
    lemma_last_index_of(rest, '-', service.len() as int);
    assert(rest.skip(service.len() as int + 1) == index);
    assert(rest.take(service.len() as int) == service);
}

/// A container named `<project>-<rest>`, where `rest` has no hyphen or does
/// not end in a hyphen followed by digits only, stands for `<rest>`.
pub proof fn lemma_name_without_index_is_kept(project: Seq<char>, rest: Seq<char>)
    requires
        last_index_of(rest, '-') < 0 || !all_digits(rest.skip(last_index_of(rest, '-') + 1)),
    ensures
        service_name(project.push('-') + rest, project) == rest,
{
    let prefix = project.push('-');
    let name = prefix + rest;
    assert(name.take(prefix.len() as int) == prefix);
    assert(name.skip(prefix.len() as int) == rest);
}

} // verus!
