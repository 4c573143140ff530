use dockge_backend::error::AppError;
use dockge_backend::stack::{
    accepted_compose_file_names, accepted_compose_override_file_names, is_valid_name, SavePlan,
    Stack, StackDir,
};
use dockge_backend::stack_list::{
    add_ps_entry, compose_ls_failure, dry_run_outcome, get_compose_ls_status, ps_lines,
    validate_with_docker, ComposeLsEntry, ComposePsEntry, ServiceStatus,
};
use dockge_backend::status::{CREATED_FILE, EXITED, RUNNING, UNHEALTHY, UNKNOWN};

const WEB: &str = "services:\n  web:\n    image: nginx:1.25\n";

fn strs(items: &[&str]) -> Vec<String> {
    items.iter().map(|s| s.to_string()).collect()
}

fn file(name: &str, content: &str) -> (String, String) {
    (name.to_string(), content.to_string())
}

fn dir_with(files: &[(&str, &str)]) -> StackDir {
    StackDir { exists: true, files: files.iter().map(|(n, c)| file(n, c)).collect() }
}

fn submitted(name: &str, compose: &str, env: &str, over: &str) -> Stack {
    let mut s = Stack::new(name.to_string(), "/opt/stacks".to_string());
    s.compose_yaml = compose.to_string();
    s.compose_env = env.to_string();
    s.compose_override_yaml = over.to_string();
    s
}

fn carry_out(plan: &SavePlan, dir: &StackDir) -> StackDir {
    let mut files = if plan.create_dir { Vec::new() } else { dir.files.clone() };
    for (name, content) in &plan.writes {
        match files.iter().position(|(n, _)| n == name) {
            Some(i) => files[i].1 = content.clone(),
            None => files.push((name.clone(), content.clone())),
        }
    }
    StackDir { exists: true, files }
}

fn validation(r: Result<(), AppError>) -> String {
    match r {
        Err(AppError::Validation(msg)) => msg,
        other => panic!("no validation error: {:?}", other),
    }
}

#[test]
fn a_new_stack_is_empty() {
    let s = Stack::new("web".to_string(), "/opt/stacks".to_string());
    assert_eq!(s.name, "web");
    assert_eq!(s.status, UNKNOWN);
    assert_eq!(s.compose_yaml, "");
    assert_eq!(s.compose_env, "");
    assert_eq!(s.compose_override_yaml, "");
    assert_eq!(s.compose_file_name, "compose.yaml");
    assert_eq!(s.compose_override_file_name, "compose.override.yaml");
    assert_eq!(s.config_file_path, None);
    assert!(!s.is_managed_by_dockge());
    assert!(!s.is_started());
}

#[test]
fn the_path_is_the_name_below_the_root() {
    let s = Stack::new("web".to_string(), "/opt/stacks".to_string());
    assert_eq!(s.path(), "/opt/stacks/web");
    assert_eq!(s.full_path("/home/me"), "/opt/stacks/web");
    let r = Stack::new("web".to_string(), "stacks".to_string());
    assert_eq!(r.path(), "stacks/web");
    assert_eq!(r.full_path("/home/me"), "/home/me/stacks/web");
}

#[test]
fn started_means_something_runs() {
    let mut s = Stack::new("web".to_string(), "/".to_string());
    for (status, started) in
        [(0, false), (1, false), (2, false), (3, true), (4, false), (5, true), (6, true), (7, false)]
    {
        s.status = status;
        assert_eq!(s.is_started(), started, "{}", status);
    }
    assert_eq!(UNHEALTHY, 6);
}

#[test]
fn accepted_file_names_in_order() {
    assert_eq!(
        accepted_compose_file_names(),
        vec!["compose.yaml", "docker-compose.yaml", "docker-compose.yml", "compose.yml"]
    );
    assert_eq!(
        accepted_compose_override_file_names(),
        vec![
            "compose.override.yaml",
            "compose.override.yml",
            "docker-compose.override.yaml",
            "docker-compose.override.yml"
        ]
    );
}

#[test]
fn stack_names() {
    for good in ["web", "a", "my-stack_2", "0", "-", "_"] {
        assert!(is_valid_name(good), "{}", good);
    }
    for bad in ["", "Web", "my stack", "a.b", "é", "a/b", "web\n", "../x"] {
        assert!(!is_valid_name(bad), "{:?}", bad);
    }
}

#[test]
fn validation_names_the_fault() {
    assert_eq!(
        validation(submitted("Web", WEB, "", "").validate()),
        "Stack name can only contain [a-z][0-9] _ - only"
    );
    assert_eq!(
        validation(submitted("", WEB, "", "").validate()),
        "Stack name can only contain [a-z][0-9] _ - only"
    );
    assert!(validation(submitted("web", "a: [1, 2", "", "").validate())
        .starts_with("Invalid YAML: "));
    assert!(validation(submitted("web", WEB, "", "b: {").validate())
        .starts_with("Invalid override YAML: "));
    assert_eq!(validation(submitted("web", WEB, "NOTANENV", "").validate()), "Invalid .env format");
    assert_eq!(
        validation(submitted("Web", "a: [", "NOTANENV", "b: {").validate()),
        "Stack name can only contain [a-z][0-9] _ - only"
    );
}

#[test]
fn validation_accepts() {
    assert_eq!(submitted("web", WEB, "", "").validate(), Ok(()));
    assert_eq!(submitted("web", WEB, "A=1", "").validate(), Ok(()));
    assert_eq!(submitted("web", WEB, "A=1\nB", "").validate(), Ok(()));
    assert_eq!(submitted("web", WEB, "ONE\nTWO", "").validate(), Ok(()));
    assert_eq!(submitted("web", WEB, "\n", "").validate(), Ok(()));
    assert_eq!(submitted("web", WEB, "", "  \n ").validate(), Ok(()));
    assert_eq!(submitted("web", WEB, "", "services: {}").validate(), Ok(()));
    assert_eq!(submitted("web", "", "", "").validate(), Ok(()));
}

#[test]
fn a_new_stack_is_saved_into_a_new_directory() {
    let s = submitted("web", WEB, "", "");
    let plan = s.save(true, &StackDir::absent()).unwrap();
    assert!(plan.create_dir);
    assert_eq!(plan.writes, vec![file("compose.yaml", WEB)]);
}

#[test]
fn environment_and_override_are_written_when_there_is_something_to_write() {
    let s = submitted("web", WEB, "A=1\n", "services: {}\n");
    let plan = s.save(true, &StackDir::absent()).unwrap();
    assert_eq!(
        plan.writes,
        vec![
            file("compose.yaml", WEB),
            file(".env", "A=1\n"),
            file("compose.override.yaml", "services: {}\n")
        ]
    );
    let blank = submitted("web", WEB, " \n ", "\n");
    let plan = blank.save(true, &StackDir::absent()).unwrap();
    assert_eq!(
        plan.writes,
        vec![file("compose.yaml", WEB), file(".env", " \n "), file("compose.override.yaml", "\n")]
    );
    let empty = submitted("web", WEB, "", "");
    let plan = empty.save(true, &StackDir::absent()).unwrap();
    assert_eq!(plan.writes, vec![file("compose.yaml", WEB)]);
}

#[test]
fn files_that_are_there_are_written_even_when_blank() {
    let dir = dir_with(&[("compose.yaml", "old"), (".env", "A=1"), ("compose.override.yaml", "x: 1")]);
    let s = submitted("web", WEB, "", "");
    let plan = s.save(false, &dir).unwrap();
    assert!(!plan.create_dir);
    assert_eq!(
        plan.writes,
        vec![file("compose.yaml", WEB), file(".env", ""), file("compose.override.yaml", "")]
    );
}

#[test]
fn a_name_that_exists_cannot_be_added() {
    let dir = dir_with(&[("compose.yaml", "services: {}\n")]);
    let s = submitted("web", WEB, "", "");
    let err = s.save(true, &dir).unwrap_err();
    assert_eq!(err, AppError::Validation("Stack name already exists".to_string()));
    assert_eq!(err.explanation(), "Stack name already exists");
    assert_eq!(err.message(), "Validation error: Stack name already exists");
}

#[test]
fn a_stack_that_is_not_there_cannot_be_saved() {
    let s = submitted("web", WEB, "", "");
    let err = s.save(false, &StackDir::absent()).unwrap_err();
    assert_eq!(err, AppError::NotFound("Stack not found".to_string()));
    assert_eq!(err.explanation(), "Stack not found");
    assert_eq!(err.message(), "Not found: Stack not found");
}

#[test]
fn nothing_is_written_for_an_invalid_stack() {
    let s = submitted("web", "a: [", "", "");
    assert!(matches!(s.save(true, &StackDir::absent()), Err(AppError::Validation(_))));
    let t = submitted("Bad Name", WEB, "", "");
    assert!(matches!(t.save(false, &dir_with(&[])), Err(AppError::Validation(_))));
}

#[test]
fn loading_reads_the_first_accepted_files() {
    let dir = dir_with(&[
        ("compose.yml", "last"),
        ("docker-compose.yml", "third"),
        ("docker-compose.override.yml", "o4"),
        ("compose.override.yml", "o2"),
        (".env", "A=1"),
        ("notes.txt", "n"),
    ]);
    let mut s = Stack::new("web".to_string(), "/opt/stacks".to_string());
    s.load_from_disk(&dir);
    assert_eq!(s.compose_file_name, "docker-compose.yml");
    assert_eq!(s.compose_yaml, "third");
    assert_eq!(s.compose_override_file_name, "compose.override.yml");
    assert_eq!(s.compose_override_yaml, "o2");
    assert_eq!(s.compose_env, "A=1");
}

#[test]
fn loading_an_empty_directory_changes_nothing() {
    let mut s = Stack::new("web".to_string(), "/opt/stacks".to_string());
    s.compose_yaml = "kept".to_string();
    let before = s.clone();
    s.load_from_disk(&dir_with(&[]));
    assert_eq!(s, before);
}

#[test]
fn what_is_saved_is_what_is_loaded() {
    let cases = [
        (WEB, "", ""),
        (WEB, "\n", ""),
        (WEB, " \n\t\n", "  \n"),
        (WEB, "A=1\nB=2\n", "services:\n  web:\n    ports: []\n"),
        ("services: {}", "A=1", ""),
        ("# only a comment\n", "", "x: 1"),
        ("", "", ""),
    ];
    for (compose, env, over) in cases {
        let s = submitted("web", compose, env, over);
        let plan = s.save(true, &StackDir::absent()).unwrap();
        let disk = carry_out(&plan, &StackDir::absent());
        let got = Stack::get_stack("/opt/stacks", "web", &disk, &vec![]).unwrap();
        assert_eq!(got.compose_yaml, compose);
        assert_eq!(got.compose_env, env);
        assert_eq!(got.compose_override_yaml, over);
        assert!(got.is_managed_by_dockge());
    }
}

#[test]
fn an_environment_of_white_space_is_written_as_it_is() {
    let s = submitted("web", WEB, "\n", " \n");
    let plan = s.save(true, &StackDir::absent()).unwrap();
    assert_eq!(
        plan.writes,
        vec![file("compose.yaml", WEB), file(".env", "\n"), file("compose.override.yaml", " \n")]
    );
    let disk = carry_out(&plan, &StackDir::absent());
    let got = Stack::get_stack("/opt/stacks", "web", &disk, &vec![]).unwrap();
    assert_eq!(got.compose_env, "\n");
    assert_eq!(got.compose_override_yaml, " \n");
    let empty = submitted("web", WEB, "", "").save(true, &StackDir::absent()).unwrap();
    assert_eq!(empty.writes, vec![file("compose.yaml", WEB)]);
    assert_eq!(validation(submitted("web", WEB, "  ", "").validate()), "Invalid .env format");
}

#[test]
fn a_stack_is_read_with_its_listed_status() {
    let entry = |name: &str, status: &str| ComposeLsEntry {
        name: name.to_string(),
        status: status.to_string(),
        config_files: None,
    };
    let dir = dir_with(&[("compose.yaml", WEB)]);
    let read = |listing: Vec<ComposeLsEntry>| {
        Stack::get_stack("/opt/stacks", "web", &dir, &listing).unwrap()
    };
    assert_eq!(read(vec![]).status, 1);
    assert!(!read(vec![]).is_started());
    assert_eq!(read(vec![entry("other", "running(1)")]).status, 1);
    let running = read(vec![entry("other", "exited(1)"), entry("web", "running(2)")]);
    assert_eq!(running.status, 3);
    assert!(running.is_started());
    assert_eq!(running.compose_yaml, WEB);
    assert_eq!(read(vec![entry("web", "exited(1)")]).status, 4);
    assert_eq!(read(vec![entry("web", "running(1), exited(1)")]).status, 5);
    assert!(read(vec![entry("web", "running(1), exited(1)")]).is_started());
    assert_eq!(read(vec![entry("web", "running(1)"), entry("web", "exited(1)")]).status, 4);
    let bare = Stack::get_stack("/opt/stacks", "web", &dir_with(&[]), &vec![]).unwrap();
    assert_eq!(bare.status, 0);
}

#[test]
fn the_disk_follows_the_last_save_or_delete() {
    let mut disk = StackDir::absent();
    let first = submitted("web", "a: 1\n", "A=1", "");
    disk = carry_out(&first.save(true, &disk).unwrap(), &disk);
    let bad = submitted("web", "a: [", "", "");
    assert!(bad.save(false, &disk).is_err());
    let again = submitted("web", "a: 9\n", "", "");
    assert!(again.save(true, &disk).is_err());
    assert_eq!(Stack::get_stack("/opt/stacks", "web", &disk, &vec![]).unwrap().compose_yaml, "a: 1\n");
    let second = submitted("web", "a: 2\n", "B=2", "o: 1\n");
    disk = carry_out(&second.save(false, &disk).unwrap(), &disk);
    let seen = Stack::get_stack("/opt/stacks", "web", &disk, &vec![]).unwrap();
    assert_eq!(seen.compose_yaml, "a: 2\n");
    assert_eq!(seen.compose_env, "B=2");
    assert_eq!(seen.compose_override_yaml, "o: 1\n");
    disk = StackDir::absent();
    assert!(Stack::get_stack("/opt/stacks", "web", &disk, &vec![]).is_none());
    assert!(second.save(false, &disk).is_err());
    disk = carry_out(&first.save(true, &disk).unwrap(), &disk);
    assert_eq!(Stack::get_stack("/opt/stacks", "web", &disk, &vec![]).unwrap().compose_yaml, "a: 1\n");
}

#[test]
fn compose_options() {
    let s = Stack::new("web".to_string(), "/opt/stacks".to_string());
    assert_eq!(
        s.get_compose_options("up", &strs(&["-d", "--remove-orphans"]), false, false),
        strs(&["compose", "up", "-d", "--remove-orphans"])
    );
    assert_eq!(
        s.get_compose_options("up", &strs(&["-d"]), false, true),
        strs(&["compose", "up", "-d"])
    );
    assert_eq!(
        s.get_compose_options("ps", &strs(&["--format", "json"]), true, false),
        strs(&["compose", "--env-file", "../global.env", "ps", "--format", "json"])
    );
    assert_eq!(
        s.get_compose_options("down", &strs(&[]), true, true),
        strs(&["compose", "--env-file", "../global.env", "--env-file", "./.env", "down"])
    );
}

#[test]
fn the_stack_list_record() {
    let mut s = Stack::new("web".to_string(), "/opt/stacks".to_string());
    s.status = RUNNING;
    s.managed = true;
    let info = s.to_simple_json("peer:5001", true, false);
    assert_eq!(info.name, "web");
    assert_eq!(info.status, 3);
    assert!(info.started);
    assert!(info.recreate_necessary);
    assert!(!info.image_updates_available);
    assert!(info.tags.is_empty());
    assert!(info.is_managed_by_dockge);
    assert_eq!(info.compose_file_name, "compose.yaml");
    assert_eq!(info.compose_override_file_name, "compose.override.yaml");
    assert_eq!(info.endpoint, "peer:5001");
}

fn ls(name: &str, status: &str, config: Option<&str>) -> ComposeLsEntry {
    ComposeLsEntry {
        name: name.to_string(),
        status: status.to_string(),
        config_files: config.map(|c| c.to_string()),
    }
}

fn by_name<'a>(list: &'a Vec<(String, Stack)>, name: &str) -> Option<&'a Stack> {
    list.iter().find(|(n, _)| n == name).map(|(_, s)| s)
}

#[test]
fn the_list_merges_disk_and_engine() {
    let dirs = vec![
        ("web".to_string(), dir_with(&[("compose.yaml", WEB), (".env", "A=1")])),
        ("empty".to_string(), dir_with(&[("notes.txt", "x")])),
        ("idle".to_string(), dir_with(&[("docker-compose.yml", "services: {}")])),
    ];
    let listing = vec![
        ls("web", "running(1)", Some("/opt/stacks/web/compose.yaml")),
        ls("foreign", "exited(2)", None),
        ls("empty", "running(1)", None),
    ];
    let list = Stack::get_stack_list("/opt/stacks", &dirs, &listing);
    assert_eq!(list.len(), 4);
    let web = by_name(&list, "web").unwrap();
    assert_eq!(web.status, RUNNING);
    assert!(web.managed);
    assert_eq!(web.compose_yaml, WEB);
    assert_eq!(web.compose_env, "A=1");
    assert_eq!(web.config_file_path, Some("/opt/stacks/web/compose.yaml".to_string()));
    let idle = by_name(&list, "idle").unwrap();
    assert_eq!(idle.status, CREATED_FILE);
    assert_eq!(idle.compose_file_name, "docker-compose.yml");
    assert!(idle.managed);
    let foreign = by_name(&list, "foreign").unwrap();
    assert_eq!(foreign.status, EXITED);
    assert!(!foreign.managed);
    assert_eq!(foreign.compose_yaml, "");
    let empty = by_name(&list, "empty").unwrap();
    assert!(empty.managed);
    assert_eq!(empty.status, RUNNING);
}

#[test]
fn the_orchestrator_s_own_project_is_left_out_unless_managed() {
    let listing = vec![ls("dockge", "running(1)", None), ls("other", "running(1)", None)];
    let list = Stack::get_stack_list("/opt/stacks", &vec![], &listing);
    assert!(by_name(&list, "dockge").is_none());
    assert!(by_name(&list, "other").is_some());
    let dirs = vec![("dockge".to_string(), dir_with(&[("compose.yaml", "services: {}")]))];
    let list = Stack::get_stack_list("/opt/stacks", &dirs, &listing);
    assert_eq!(by_name(&list, "dockge").unwrap().status, RUNNING);
}

#[test]
fn a_stack_is_read_or_looked_up() {
    let dir = dir_with(&[("compose.yaml", WEB)]);
    let s = Stack::get_stack("/opt/stacks", "web", &dir, &vec![]).unwrap();
    assert_eq!(s.compose_yaml, WEB);
    assert_eq!(s.status, CREATED_FILE);
    assert!(s.managed);
    assert!(Stack::get_stack("/opt/stacks", "web", &StackDir::absent(), &vec![]).is_none());
    let list = Stack::get_stack_list("/opt/stacks", &vec![], &vec![ls("x", "running(1)", None)]);
    assert_eq!(Stack::find_stack(list.clone(), "x").unwrap().name, "x");
    assert_eq!(
        Stack::find_stack(list, "y").unwrap_err(),
        AppError::NotFound("Stack not found".to_string())
    );
}

fn ps(service: &str, state: &str, name: &str, health: &str, image: &str) -> ComposePsEntry {
    ComposePsEntry {
        service: service.to_string(),
        state: state.to_string(),
        name: name.to_string(),
        health: health.to_string(),
        image: image.to_string(),
    }
}

fn status(status: &str, name: &str, image: &str) -> ServiceStatus {
    ServiceStatus { status: status.to_string(), name: name.to_string(), image: image.to_string() }
}

#[test]
fn containers_are_listed_by_service() {
    let mut list = Stack::get_service_status_list(vec![
        ps("web", "running", "web-1", "", "nginx:1.25"),
        ps("db", "running", "db-1", "healthy", "postgres:16"),
        ps("web", "exited", "web-2", "", "nginx:1.25"),
    ]);
    list.sort_by(|a, b| b.0.cmp(&a.0));
    assert_eq!(
        list,
        vec![
            (
                "web".to_string(),
                vec![status("running", "web-1", "nginx:1.25"), status("exited", "web-2", "nginx:1.25")]
            ),
            ("db".to_string(), vec![status("healthy", "db-1", "postgres:16")]),
        ]
    );
    let mut one = Vec::new();
    add_ps_entry(&mut one, ps("web", "running", "w", "unhealthy", "i"));
    assert_eq!(one, vec![("web".to_string(), vec![status("unhealthy", "w", "i")])]);
}

#[test]
fn blank_lines_of_the_engine_are_passed_over() {
    assert_eq!(ps_lines("{\"a\":1}\n\n  \n[{\"b\":2}]\r\n"), strs(&["{\"a\":1}", "[{\"b\":2}]"]));
    assert_eq!(ps_lines(""), strs(&[]));
}

#[test]
fn the_engine_is_asked_for_its_projects() {
    assert_eq!(get_compose_ls_status(), strs(&["compose", "ls", "--all", "--format", "json"]));
    assert_eq!(
        compose_ls_failure("EOF", "oops"),
        AppError::Internal("Failed to parse compose ls: EOF (output: oops)".to_string())
    );
}

#[test]
fn the_dry_run() {
    let run = validate_with_docker(WEB, "", "compose.yaml");
    assert_eq!(run.files, vec![file("compose.yaml", WEB)]);
    assert_eq!(run.args, strs(&["compose", "-f", "compose.yaml", "config", "--dry-run"]));
    let run = validate_with_docker(WEB, "A=1", "docker-compose.yml");
    assert_eq!(run.files, vec![file("docker-compose.yml", WEB), file(".env", "A=1")]);
    assert_eq!(
        run.args,
        strs(&["compose", "-f", "docker-compose.yml", "--env-file", ".env", "config", "--dry-run"])
    );
}

#[test]
fn the_dry_run_s_complaint() {
    assert_eq!(dry_run_outcome(true, "ignored"), Ok(()));
    assert_eq!(
        dry_run_outcome(false, "validating /tmp/x/compose.yaml: services.web Additional property\n"),
        Err(AppError::Validation("services.web Additional property".to_string()))
    );
    assert_eq!(
        dry_run_outcome(false, "  yaml: line 2: mapping values are not allowed\n"),
        Err(AppError::Validation("yaml: line 2: mapping values are not allowed".to_string()))
    );
    assert_eq!(
        dry_run_outcome(false, " \n"),
        Err(AppError::Validation("Docker compose validation failed".to_string()))
    );
    assert_eq!(
        dry_run_outcome(false, "validating x: "),
        Err(AppError::Validation("validating x:".to_string()))
    );
    assert_eq!(
        dry_run_outcome(false, "validating nothing"),
        Err(AppError::Validation("validating nothing".to_string()))
    );
}
