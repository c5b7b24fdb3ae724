use containers::discovery::{
    derive_service_name, map_row_to_service, parse_ports, ContainerServiceInfo, DockerPsRow,
};
use containers::text::{chars_of, split_ranges, text_of, trim_bounds, CharClass};

fn row(names: &str, ports: &str) -> DockerPsRow {
    DockerPsRow {
        id: "abc123".to_string(),
        names: names.to_string(),
        state: "running".to_string(),
        status: "Up 2 minutes".to_string(),
        image: "nginx:latest".to_string(),
        ports: ports.to_string(),
    }
}

#[test]
fn replica_index_is_stripped() {
    assert_eq!(derive_service_name("proj-web-2", "proj"), "web");
    assert_eq!(derive_service_name("proj-web-10", "proj"), "web");
}

#[test]
fn name_without_numeric_suffix_keeps_its_tail() {
    assert_eq!(derive_service_name("proj-oneoff", "proj"), "oneoff");
    assert_eq!(derive_service_name("proj-web-2a", "proj"), "web-2a");
}

#[test]
fn name_outside_the_project_keeps_its_head() {
    assert_eq!(derive_service_name("other-db-1", "proj"), "other-db");
    assert_eq!(derive_service_name("standalone", "proj"), "standalone");
    assert_eq!(derive_service_name("project-web-1", "proj"), "project-web");
}

#[test]
fn only_the_last_hyphen_is_considered() {
    assert_eq!(derive_service_name("proj-my-api-3", "proj"), "my-api");
    assert_eq!(derive_service_name("proj-web-1-2", "proj"), "web-1");
}

#[test]
fn trailing_hyphen_counts_as_empty_index() {
    assert_eq!(derive_service_name("proj-web-", "proj"), "web");
}

#[test]
fn derivation_can_yield_an_empty_name() {
    assert_eq!(derive_service_name("proj-", "proj"), "");
    assert_eq!(derive_service_name("", "proj"), "");
    assert_eq!(derive_service_name("proj--7", "proj"), "");
    assert_eq!(derive_service_name("-7", "proj"), "");
}

#[test]
fn non_ascii_digits_are_no_replica_index() {
    assert_eq!(derive_service_name("proj-web-\u{663}", "proj"), "web-\u{663}");
}

#[test]
fn row_maps_to_service_with_url() {
    let info = map_row_to_service(row("proj-web-2", "0.0.0.0:8080->80/tcp, :::8080->80/tcp"), "proj");
    assert_eq!(
        info,
        ContainerServiceInfo {
            container_id: "abc123".to_string(),
            container_name: "proj-web-2".to_string(),
            service: "web".to_string(),
            state: "running".to_string(),
            status: "Up 2 minutes".to_string(),
            image: "nginx:latest".to_string(),
            ports: vec!["0.0.0.0:8080->80/tcp".to_string(), ":::8080->80/tcp".to_string()],
            compose_project: "proj".to_string(),
            browser_url: Some("http://web.proj.orb.local".to_string()),
        }
    );
}

#[test]
fn oneoff_row_has_url_of_its_name() {
    let info = map_row_to_service(row("proj-oneoff", ""), "proj");
    assert_eq!(info.service, "oneoff");
    assert_eq!(info.browser_url, Some("http://oneoff.proj.orb.local".to_string()));
    assert!(info.ports.is_empty());
}

#[test]
fn empty_derivation_falls_back_and_has_no_url() {
    let info = map_row_to_service(row("proj--7", ""), "proj");
    assert_eq!(info.service, "7");
    assert_eq!(info.browser_url, None);

    let info = map_row_to_service(row("-7-", ""), "proj");
    assert_eq!(derive_service_name("-7-", "proj"), "-7");
    assert_eq!(info.service, "-7");

    let info = map_row_to_service(row("-5", ""), "proj");
    assert_eq!(info.service, "5");
    assert_eq!(info.browser_url, None);

    let info = map_row_to_service(row("proj-", ""), "proj");
    assert_eq!(info.service, "");
    assert_eq!(info.browser_url, None);
}

#[test]
fn ports_are_split_trimmed_and_filtered() {
    assert_eq!(parse_ports("80/tcp, 443/tcp"), vec!["80/tcp", "443/tcp"]);
    assert_eq!(parse_ports(" 80/tcp ,, ,443/tcp,"), vec!["80/tcp", "443/tcp"]);
    assert_eq!(parse_ports(""), Vec::<String>::new());
    assert_eq!(parse_ports(" , "), Vec::<String>::new());
    assert_eq!(parse_ports("a b"), vec!["a b"]);
}

#[test]
fn ports_agree_with_split_trim_filter() {
    for text in ["", ",", "a", "a,b", " a , b ", ",,a,,", "\t80\t,\u{a0}81\u{a0}", "a,\n,b"] {
        let expected: Vec<String> = text
            .split(',')
            .map(|p| p.trim().to_string())
            .filter(|p| !p.is_empty())
            .collect();
        assert_eq!(parse_ports(text), expected, "{text:?}");
    }
}

#[test]
fn derivation_agrees_with_prefix_and_last_hyphen_rule() {
    let names = [
        "proj-web-2", "proj-oneoff", "web", "proj", "proj-", "-", "--", "proj-a-b-12", "x-1-",
        "proj-proj-1", "a-b", "1-2-3", "proj-\u{e9}-1",
    ];
    for name in names {
        for project in ["proj", "", "x", "proj-a"] {
            let prefix = format!("{project}-");
            let rest = name.strip_prefix(&prefix).unwrap_or(name);
            let expected = match rest.rsplit_once('-') {
                Some((head, tail)) if tail.chars().all(|c| c.is_ascii_digit()) => head,
                _ => rest,
            };
            assert_eq!(derive_service_name(name, project), expected, "{name:?} {project:?}");
        }
    }
}

#[test]
fn split_ranges_agree_with_split() {
    for text in ["", ",", "a", "a,b", ",a", "a,", "a,,b", "\u{e9},\u{4e2d}\u{6587},z"] {
        let chars = chars_of(text);
        let got: Vec<String> = split_ranges(&chars, ',')
            .into_iter()
            .map(|(from, to)| text_of(&chars, from, to))
            .collect();
        let expected: Vec<String> = text.split(',').map(|p| p.to_string()).collect();
        assert_eq!(got, expected, "{text:?}");
    }
}

#[test]
fn trim_bounds_agree_with_trim() {
    for text in ["", " ", "a", " a", "a ", "  a b  ", "\t\n x \r\n", "\u{3000}x\u{2028}", "---"] {
        let chars = chars_of(text);
        let (from, to) = trim_bounds(&chars, 0, chars.len(), CharClass::Whitespace);
        assert_eq!(text_of(&chars, from, to), text.trim(), "{text:?}");
        let (from, to) = trim_bounds(&chars, 0, chars.len(), CharClass::Hyphen);
        assert_eq!(text_of(&chars, from, to), text.trim_matches('-'), "{text:?}");
    }
}
