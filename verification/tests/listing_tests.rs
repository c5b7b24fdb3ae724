use containers::error::ContainerError;
use containers::listing::{
    line_ranges, parse_row, parse_services, row_from_members, services_from_output,
    services_from_text,
};
use containers::discovery::DockerPsRow;
use containers::text::{chars_of, text_of};

const WEB: &str = r#"{"Command":"\"nginx\"","ID":"aaa111","Image":"nginx:1.27","Names":"proj-web-1","Ports":"0.0.0.0:8080->80/tcp, [::]:8080->80/tcp","State":"running","Status":"Up 3 hours"}"#;
const DB: &str = r#"{"ID":"bbb222","Image":"postgres:16","Names":"proj-db-1","Ports":"5432/tcp","State":"exited","Status":"Exited (0) 2 minutes ago"}"#;

fn lines(text: &str) -> Vec<String> {
    let chars = chars_of(text);
    line_ranges(&chars).into_iter().map(|(from, to)| text_of(&chars, from, to)).collect()
}

#[test]
fn successful_command_without_rows_yields_empty_sequence() {
    assert_eq!(services_from_output(true, b"", b"", "proj"), Ok(vec![]));
    assert_eq!(services_from_output(true, b"\n\n  \n", b"ignored", "proj"), Ok(vec![]));
    assert_eq!(services_from_text(true, "", "", "proj"), Ok(vec![]));
}

#[test]
fn failed_command_yields_command_failed_with_stderr() {
    let r = services_from_output(false, WEB.as_bytes(), b"Cannot connect to the Docker daemon\n", "proj");
    assert_eq!(
        r,
        Err(ContainerError::CommandFailed("Cannot connect to the Docker daemon\n".to_string()))
    );
    assert_eq!(
        r.unwrap_err().message(),
        "docker ps failed: Cannot connect to the Docker daemon\n"
    );
    assert_eq!(
        services_from_text(false, WEB, "nope", "proj"),
        Err(ContainerError::CommandFailed("nope".to_string()))
    );
}

#[test]
fn malformed_row_is_skipped() {
    let listing = format!("{WEB}\nthis is not json\n{DB}\n");
    let services = services_from_output(true, listing.as_bytes(), b"", "proj").unwrap();
    assert_eq!(services.len(), 2);
    assert_eq!(services[0].container_id, "aaa111");
    assert_eq!(services[0].service, "web");
    assert_eq!(services[0].state, "running");
    assert_eq!(services[0].status, "Up 3 hours");
    assert_eq!(services[0].image, "nginx:1.27");
    assert_eq!(services[0].ports, vec!["0.0.0.0:8080->80/tcp", "[::]:8080->80/tcp"]);
    assert_eq!(services[0].compose_project, "proj");
    assert_eq!(services[0].browser_url, Some("http://web.proj.orb.local".to_string()));
    assert_eq!(services[1].container_id, "bbb222");
    assert_eq!(services[1].container_name, "proj-db-1");
    assert_eq!(services[1].service, "db");
    assert_eq!(services[1].browser_url, Some("http://db.proj.orb.local".to_string()));
}

#[test]
fn rows_with_missing_or_mistyped_members_are_skipped() {
    let missing = r#"{"ID":"x","Names":"proj-a-1","State":"running","Status":"Up","Image":"i"}"#;
    let mistyped = r#"{"ID":7,"Names":"proj-a-1","State":"running","Status":"Up","Image":"i","Ports":""}"#;
    let null = r#"{"ID":"x","Names":null,"State":"running","Status":"Up","Image":"i","Ports":""}"#;
    let listing = format!("{missing}\n{mistyped}\n{null}\n[1,2]\n\"text\"\n{DB}");
    let services = parse_services(&listing, "proj");
    assert_eq!(services.len(), 1);
    assert_eq!(services[0].container_id, "bbb222");
}

#[test]
fn carriage_returns_and_blank_lines_are_tolerated() {
    let listing = format!("\r\n{WEB}\r\n   \r\n\t\n{DB}\r\n");
    let services = parse_services(&listing, "proj");
    assert_eq!(services.len(), 2);
    assert_eq!(services[1].status, "Exited (0) 2 minutes ago");
}

#[test]
fn escapes_in_members_are_decoded() {
    let line = r#"{"ID":"id","Names":"proj-\"q\"-1","State":"s","Status":"a\nb","Image":"im\\g","Ports":""}"#;
    let row = parse_row(line).unwrap();
    assert_eq!(row.id, "id");
    assert_eq!(row.names, "proj-\"q\"-1");
    assert_eq!(row.status, "a\nb");
    assert_eq!(row.image, "im\\g");
}

#[test]
fn parse_row_reads_the_six_members() {
    assert_eq!(
        parse_row(DB),
        Some(DockerPsRow {
            id: "bbb222".to_string(),
            names: "proj-db-1".to_string(),
            state: "exited".to_string(),
            status: "Exited (0) 2 minutes ago".to_string(),
            image: "postgres:16".to_string(),
            ports: "5432/tcp".to_string(),
        })
    );
    assert_eq!(parse_row(""), None);
    assert_eq!(parse_row("{}"), None);
    assert_eq!(parse_row(&format!("{DB} trailing")), None);
}

#[test]
fn row_needs_all_six_members() {
    let s = |t: &str| Some(t.to_string());
    assert_eq!(
        row_from_members(s("1"), s("2"), s("3"), s("4"), s("5"), s("6")),
        Some(DockerPsRow {
            id: "1".to_string(),
            names: "2".to_string(),
            state: "3".to_string(),
            status: "4".to_string(),
            image: "5".to_string(),
            ports: "6".to_string(),
        })
    );
    assert_eq!(row_from_members(None, s("2"), s("3"), s("4"), s("5"), s("6")), None);
    assert_eq!(row_from_members(s("1"), None, s("3"), s("4"), s("5"), s("6")), None);
    assert_eq!(row_from_members(s("1"), s("2"), None, s("4"), s("5"), s("6")), None);
    assert_eq!(row_from_members(s("1"), s("2"), s("3"), None, s("5"), s("6")), None);
    assert_eq!(row_from_members(s("1"), s("2"), s("3"), s("4"), None, s("6")), None);
    assert_eq!(row_from_members(s("1"), s("2"), s("3"), s("4"), s("5"), None), None);
}

#[test]
fn invalid_utf8_is_replaced() {
    let r = services_from_output(false, b"", b"bad \xff byte", "proj");
    assert_eq!(r, Err(ContainerError::CommandFailed("bad \u{fffd} byte".to_string())));
}

#[test]
fn lines_agree_with_std_lines() {
    let texts = [
        "", "\n", "a", "a\n", "a\nb", "a\r\nb\r\n", "a\r", "a\r\n", "\r\n", "\r", "a\n\nb",
        "\n\n", "a\r\r\nb", "x\ny\r", "\u{e9}\n\u{4e2d}\r\n",
    ];
    for text in texts {
        let expected: Vec<String> = text.lines().map(|l| l.to_string()).collect();
        assert_eq!(lines(text), expected, "{text:?}");
    }
}
