use dockge_backend::codec::parse_json;
use dockge_backend::docker::{
    compose_exec, compose_exec_capture, container_inspect, exit_code, get_docker_stats,
    get_network_list,
};
use dockge_backend::error::AppError;

#[test]
fn networks_are_sorted() {
    assert_eq!(
        get_network_list("host\nbridge\n\nnone\nweb_default\nBackend\n"),
        vec!["Backend", "bridge", "host", "none", "web_default"]
    );
    assert_eq!(get_network_list("b\r\na\r\nb\n"), vec!["a", "b", "b"]);
    assert!(get_network_list("").is_empty());
    assert_eq!(get_network_list(" \n"), vec![" "]);
}

#[test]
fn statistics_by_container() {
    let out = "{\"Name\":\"web-1\",\"CPUPerc\":\"0.1%\"}\nnot json\n{\"CPUPerc\":\"1%\"}\n{\"Name\":7}\n{\"Name\":\"db-1\",\"MemPerc\":\"2%\"}\n{\"Name\":\"web-1\",\"CPUPerc\":\"9%\"}\n";
    let stats = get_docker_stats(out);
    assert_eq!(stats.len(), 2);
    assert_eq!(stats[0].0, "web-1");
    assert_eq!(stats[0].1, parse_json("{\"Name\":\"web-1\",\"CPUPerc\":\"9%\"}").unwrap());
    assert_eq!(stats[1].0, "db-1");
    assert_eq!(stats[1].1, parse_json("{\"Name\":\"db-1\",\"MemPerc\":\"2%\"}").unwrap());
    assert!(get_docker_stats("").is_empty());
}

#[test]
fn inspection_gives_output_or_complaint() {
    assert_eq!(container_inspect(true, "[{}]".to_string(), "ignored"), Ok("[{}]".to_string()));
    assert_eq!(
        container_inspect(false, "[]".to_string(), "no such object: x\n"),
        Err(AppError::Internal("docker inspect failed: no such object: x\n".to_string()))
    );
}

#[test]
fn output_lines_and_exit_codes() {
    assert_eq!(compose_exec("Pulling web"), "Pulling web\r\n");
    assert_eq!(compose_exec(""), "\r\n");
    assert_eq!(exit_code(Some(0)), 0);
    assert_eq!(exit_code(Some(125)), 125);
    assert_eq!(exit_code(None), -1);
    assert_eq!(
        compose_exec_capture(None, "out".to_string(), "err".to_string()),
        (-1, "out".to_string(), "err".to_string())
    );
    assert_eq!(
        compose_exec_capture(Some(2), "".to_string(), "e".to_string()),
        (2, "".to_string(), "e".to_string())
    );
}
