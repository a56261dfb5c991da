use rack::handler::{handler_plan, ArgType, HandlerArg, HandlerKind, HandlerRunner, HandlerSignature, SegmentArgs};
use rack::cli::{
    cargo_cdylib_target_name, cli_command, function_command, function_test_request,
    infer_cli_name, parse_bridge_args, parse_function_test_args, sanitize_name, CliCommand,
    FunctionCommand, TestRequest,
};
use rack::command::{ack_response, core_command, state_snapshot_response, CoreCommand};
use rack::config::{
    add_server, config_path, delete_ids, delete_servers, duplicate_id, duplicate_server, route_info,
    route_subdomain, PersistedConfiguration, ServerConfiguration,
};
use rack::dev_commands::{detect, detect_cli, ProjectManifest};
use rack::functions::logs::{function_log_path, function_log_target, safe_log_component, stderr_log_lines};
use rack::functions::manifest::{
    mark_route_conflicts, parse_manifest, sort_packages, Manifest, ManifestCron, ManifestRoute,
    ManifestSource,
};
use rack::functions::routing::{
    find_route, normalize_route_path, route_has_glob, route_match_request, route_matches,
    route_specificity, validate_route_path, FunctionRouteMatch,
};
use rack::functions::runtime::{
    function_result, parse_function_response, route_error_response, RunOutcome,
};
use rack::functions::manifest::{FunctionPackage, FunctionRoute};
use rack::ipc::{ipc_list, ipc_register, ipc_remove, ipc_request, IpcReply, IpcRequest, RegisterPayload};
use rack::json::{as_bool, as_str, get, json_string, parse_json, Json};
use rack::process::{launch_plan, shell_escape};
use rack::project::{base_name, infer, parse_worktrees, sanitize};
use rack::proxy::{host_info, rack_local_request, RackLocalRequest};
use rack::readiness::{backend_candidates, newly_listening_port, next_port_candidate, parse_lsof_ports};
use rack::routes::{route_command_kind, route_request, Route, RouteReply, RouteRequest, RouteTable};
use rack::schedule::{day_matches, next_calendar_after, parse_calendar, parse_days, parse_time, schedule_expression, CalendarDays, ScheduleExpression};
use rack::scheduler::{cron_key, SchedulerState};
use rack::sorted_map::SortedMap;

fn manifest(files: &[&str], contents: &[(&str, &str)]) -> ProjectManifest {
    let mut map = SortedMap::new();
    for (name, text) in contents {
        map.insert(name.to_string(), text.to_string());
    }
    ProjectManifest { files: files.iter().map(|f| f.to_string()).collect(), contents: map }
}

fn json(text: &str) -> Json {
    parse_json(text).expect("test JSON")
}

fn server(name: &str, command: &str) -> ServerConfiguration {
    let mut s = ServerConfiguration::with_defaults("00000000-0000-4000-8000-000000000001".to_string());
    s.name = name.to_string();
    s.command = command.to_string();
    s
}

#[test]
fn vite_prefers_installed_package_manager() {
    let manifest = manifest(&["vite.config.ts", "pnpm-lock.yaml"], &[]);
    let command = detect(&manifest).unwrap();
    assert_eq!(command.command, "pnpm exec vite");
    assert_eq!(command.port_flag.as_deref(), Some("--port"));
}

#[test]
fn node_scripts_are_detected_in_priority_order() {
    let manifest = manifest(
        &["package.json", "bun.lockb"],
        &[("package.json", r#"{"scripts":{"start":"node server.js","dev":"vite"}}"#)],
    );
    let command = detect(&manifest).unwrap();
    assert_eq!(command.command, "bun run dev");
    assert_eq!(command.port_flag, None);
}

#[test]
fn rails_requires_a_rails_gemfile() {
    let manifest = manifest(&["Gemfile"], &[("Gemfile", "gem 'rails'\n")]);
    let command = detect(&manifest).unwrap();
    assert_eq!(command.command, "rails server");
    assert_eq!(command.port_flag.as_deref(), Some("-p"));
}

#[test]
fn functions_exact_routes_are_more_specific_than_globs() {
    assert!(route_specificity("/gcse") > route_specificity("/*"));
    assert!(route_specificity("/assets/images/*") > route_specificity("/assets/**"));
}

#[test]
fn tests_exact_routes_are_more_specific_than_globs() {
    assert!(route_specificity("/gcse") > route_specificity("/*"));
    assert!(route_specificity("/assets/images/*") > route_specificity("/assets/**"));
}

#[test]
fn functions_matches_recursive_glob_routes() {
    assert!(route_matches("/assets/**/*.js", "/assets/app/main.js").unwrap());
    assert!(!route_matches("/assets/**/*.js", "/assets/app/main.css").unwrap());
    assert!(!route_matches("/assets/*.js", "/assets/app/main.js").unwrap());
}

#[test]
fn tests_matches_recursive_glob_routes() {
    assert!(route_matches("/assets/**/*.js", "/assets/app/main.js").unwrap());
    assert!(!route_matches("/assets/**/*.js", "/assets/app/main.css").unwrap());
    assert!(!route_matches("/assets/*.js", "/assets/app/main.js").unwrap());
}

fn check_structured_response() {
    let payload = parse_function_response(
        r#"{"status":201,"headers":{"Content-Type":"application/json"},"body":"{\"ok\":true}"}"#,
    )
    .unwrap();
    assert_eq!(payload.status, 201);
    assert_eq!(payload.headers.get("content-type").map(|s| s.as_str()), Some("application/json"));
    assert_eq!(payload.body, r#"{"ok":true}"#);
}

#[test]
fn functions_parses_structured_http_function_response() {
    check_structured_response();
}

#[test]
fn tests_parses_structured_http_function_response() {
    check_structured_response();
}

fn check_route_metadata() {
    let route_match = FunctionRouteMatch {
        route: FunctionRoute {
            package: "pkg".to_string(),
            id: "assets".to_string(),
            path: "/assets/**".to_string(),
            method: "GET".to_string(),
            function: "serve".to_string(),
            wasm_path: "functions.wasm".to_string(),
        },
        request_path: "/assets/app/main.js".to_string(),
    };
    let request = json(
        r#"{"method":"GET","path":"/assets/app/main.js","uri":"/assets/app/main.js?debug=1","headers":{},"body":""}"#,
    );
    let request = route_match_request(&route_match, request);
    let route = get(&request, "route").unwrap();
    assert_eq!(as_str(get(route, "package")), Some("pkg"));
    assert_eq!(as_str(get(route, "id")), Some("assets"));
    assert_eq!(as_str(get(route, "pattern")), Some("/assets/**"));
    assert_eq!(as_str(get(route, "matched_path")), Some("/assets/app/main.js"));
    assert_eq!(as_bool(get(route, "is_glob")), Some(true));
}

#[test]
fn functions_route_match_request_adds_route_metadata() {
    check_route_metadata();
}

#[test]
fn tests_route_match_request_adds_route_metadata() {
    check_route_metadata();
}

#[test]
fn sanitizes_package_names() {
    assert_eq!(sanitize("@scope/My App!"), "scopemy-app!");
}

#[test]
fn parses_worktree_branches() {
    let raw = "worktree /repo\nbranch refs/heads/main\n\nworktree /repo-linked\nbranch refs/heads/feature/auth\n\n";
    let worktrees = parse_worktrees(raw);
    assert_eq!(worktrees.len(), 2);
    assert_eq!(worktrees[1].branch.as_deref(), Some("feature/auth"));
}

#[test]
fn builds_local_url_with_port_when_standard_ports_are_disabled() {
    let base = base_name("/tmp/My App", None, None);
    let project = infer(&base, None, false, 1355);
    assert_eq!(project.name, "my-app");
    assert_eq!(project.local_url, "http://my-app.localhost:1355");
}

#[test]
fn route_info_command_uses_core_route_rules() {
    let mut config = server("Demo App", "");
    config.custom_domain = String::new();
    let context = json(r#"{"boundPort":1355,"standardPortsEnabled":false}"#);
    let info = route_info(&config, &context);
    assert_eq!(info.route_subdomain, "demo-app");
    assert_eq!(info.local_url, "http://demo-app.localhost:1355");
}

#[test]
fn parses_host_headers() {
    let result = host_info(Some("Fix-Auth.MyApp.localhost:1355"));
    assert_eq!(result.hostname.as_deref(), Some("fix-auth.myapp.localhost"));
    assert_eq!(result.route_name.as_deref(), Some("fix-auth.myapp"));
    assert!(!result.is_rack_local_host);
    assert!(result.is_loopback_candidate);

    let result = host_info(Some("[::1]:1355"));
    assert_eq!(result.hostname.as_deref(), Some("::1"));
    assert!(result.is_rack_local_host);
}

#[test]
fn builds_rack_local_function_command() {
    let headers = vec![
        ("Accept".to_string(), "text/plain".to_string()),
        ("accept".to_string(), "application/json".to_string()),
    ];
    let result = rack_local_request(
        "GET".to_string(),
        "assets/logo.png?size=2".to_string(),
        &headers,
        String::new(),
    );
    match result {
        RackLocalRequest::Function { path, headers, .. } => {
            assert_eq!(path, "/assets/logo.png");
            assert_eq!(headers.get("accept").map(|s| s.as_str()), Some("text/plain, application/json"));
        }
        _ => panic!("expected a function request"),
    }
}

#[test]
fn launch_plan_uses_bridge_when_available() {
    let mut config = server("Demo App", "npm run dev");
    config.arguments = "--host 127.0.0.1".to_string();
    config.working_directory = "~/demo".to_string();
    config.environment = vec![rack::config::EnvironmentVariable {
        id: "1".to_string(),
        key: "FOO".to_string(),
        value: "bar".to_string(),
    }];
    config.port_flag = Some("--port".to_string());
    let plan = launch_plan(&config, Some("/tmp/rack-bridge"), 4000, &vec![], &vec![], Some("/home/me"))
        .unwrap();
    assert_eq!(plan.subdomain, "demo-app");
    assert!(plan.use_bridge);
    assert_eq!(plan.executable, "/tmp/rack-bridge");
    assert_eq!(plan.arguments[0], "--socket");
    assert!(plan.arguments.contains(&"--port".to_string()));
    assert_eq!(plan.environment.get("FOO").map(|s| s.as_str()), Some("bar"));
}

#[test]
fn parses_calendar_schedules() {
    for (expression, ok) in [("weekdays at 9:30am", true), ("friday at 17:00", true), ("noday at 9am", false)] {
        match schedule_expression(expression) {
            ScheduleExpression::Calendar(normalized) => {
                assert_eq!(parse_calendar(&normalized).is_ok(), ok, "{expression}");
            }
            ScheduleExpression::Interval(_) => panic!("not a calendar schedule"),
        }
    }
}

#[test]
fn resolves_exact_and_base_subdomain_routes() {
    let mut table = RouteTable::new();
    table.clear();
    table.register(Route {
        name: "myapp".to_string(),
        socket_path: "/tmp/rack/myapp.sock".to_string(),
        tcp_port: 0,
        working_directory: "/tmp/myapp".to_string(),
        added_at: "803520000.0".to_string(),
    });
    let exact = table.resolve("myapp").unwrap();
    assert_eq!(exact.socket_path, "/tmp/rack/myapp.sock");
    let fallback = table.resolve("fix-auth.myapp").unwrap();
    assert_eq!(fallback.name, "myapp");
}

#[test]
fn server_config_commands_mutate_persisted_state_in_core() {
    let mut configuration = PersistedConfiguration { servers: Vec::new() };
    add_server(&mut configuration, ServerConfiguration::with_defaults("a".to_string()));
    assert_eq!(configuration.servers.len(), 1);
    assert_eq!(configuration.servers[0].name, "New Server");
    let id = duplicate_id(&json(r#"{"id":"a"}"#));
    duplicate_server(&mut configuration, id.as_deref(), "b".to_string()).unwrap();
    assert_eq!(configuration.servers.len(), 2);
    assert_eq!(configuration.servers[1].name, "New Server Copy");
    let ids = delete_ids(&json(r#"{"ids":["a"]}"#));
    delete_servers(&mut configuration, ids).unwrap();
    assert_eq!(configuration.servers.len(), 1);
    assert_eq!(configuration.servers[0].id, "b");
}

// Further cases of the library's own.

#[test]
fn route_table_law_cases() {
    let mut table = RouteTable::new();
    let route = Route {
        name: "app".to_string(),
        socket_path: String::new(),
        tcp_port: 0,
        working_directory: "/w".to_string(),
        added_at: "1".to_string(),
    };
    table.register(route.copy());
    assert_eq!(table.resolve("app").unwrap().name, "app");
    assert_eq!(table.resolve("x.app").unwrap().name, "app");
    assert!(table.resolve("other").is_none());
    assert!(table.update_port("missing", 5).is_none());
    assert_eq!(table.update_port("app", 4100).unwrap().tcp_port, 4100);
    assert_eq!(table.update_socket_path("app", "/tmp/s").unwrap().socket_path, "/tmp/s");
    table.unregister("app");
    assert!(table.resolve("app").is_none());
    table.register(route);
    table.clear();
    assert!(table.list().is_empty());
}

#[test]
fn route_requests_read_their_payloads() {
    let kind = route_command_kind("routes.updatePort").unwrap();
    match route_request(kind, &json(r#"{"name":"app","tcpPort":70000}"#)).unwrap() {
        RouteRequest::UpdatePort { name, tcp_port } => {
            assert_eq!(name, "app");
            assert_eq!(tcp_port, 4464);
        }
        _ => panic!("expected an update"),
    }
    let kind = route_command_kind("routes.resolve").unwrap();
    assert_eq!(route_request(kind, &json("{}")).err().as_deref(), Some("missing route name"));
    let mut table = RouteTable::new();
    match table.apply(RouteRequest::UpdatePort { name: "none".to_string(), tcp_port: 1 }) {
        RouteReply::Updated(None) => {}
        _ => panic!("expected no update"),
    }
    assert!(route_command_kind("routes.other").is_none());
}

#[test]
fn route_paths_are_normalized() {
    assert_eq!(normalize_route_path("  api/items/ "), "/api/items");
    assert_eq!(normalize_route_path("/"), "/");
    assert_eq!(normalize_route_path("///"), "");
    assert!(route_has_glob("/a/{b,c}"));
    assert!(!route_has_glob("/a/b"));
    assert_eq!(route_specificity("/gcse"), 10005);
    assert_eq!(route_specificity("/*"), 1);
    assert!(validate_route_path("/a/[").is_err());
    assert!(route_matches("/a/[", "/a/x").unwrap_err().starts_with("invalid route glob '/a/['"));
}

fn package(name: &str, routes: &[(&str, &str)]) -> FunctionPackage {
    FunctionPackage {
        name: name.to_string(),
        version: "1".to_string(),
        root: format!("/f/{name}"),
        routes: routes
            .iter()
            .map(|(id, path)| FunctionRoute {
                package: name.to_string(),
                id: id.to_string(),
                path: path.to_string(),
                method: "GET".to_string(),
                function: format!("{id}_fn"),
                wasm_path: "w".to_string(),
            })
            .collect(),
        crons: Vec::new(),
        errors: Vec::new(),
    }
}

#[test]
fn find_route_prefers_specific_routes_and_reports_errors() {
    let packages = vec![package("a", &[("all", "/assets/**"), ("logo", "/assets/logo.png")])];
    let found = find_route(&packages, "get", "/assets/logo.png/").unwrap();
    assert_eq!(found.route.id, "logo");
    assert_eq!(found.request_path, "/assets/logo.png");
    assert_eq!(find_route(&packages, "GET", "/").err().as_deref(), Some("reserved rack.local path"));
    assert_eq!(
        find_route(&packages, "post", "/assets/x").err().as_deref(),
        Some("no function route for POST /assets/x")
    );
    let twice = vec![package("a", &[("one", "/x")]), package("b", &[("two", "/x")])];
    assert_eq!(find_route(&twice, "GET", "/x").err().as_deref(), Some("route conflict for GET /x"));
    assert_eq!(route_error_response("no function route for GET /x").status, 404);
    assert_eq!(route_error_response("route conflict for GET /x").status, 409);
}

#[test]
fn manifests_load_into_packages() {
    let missing = parse_manifest("/f/pkg", Some("pkg"), false, ManifestSource::Missing);
    assert_eq!(missing.name, "pkg");
    assert_eq!(missing.errors, vec!["missing functions.wasm", "missing manifest.toml"]);
    let manifest = Manifest {
        name: "demo".to_string(),
        version: "1.0.0".to_string(),
        routes: vec![
            ("bad".to_string(), ManifestRoute { path: "/_x".to_string(), method: "get".to_string(), function: "f".to_string() }),
            ("ok".to_string(), ManifestRoute { path: "hello/".to_string(), method: "post".to_string(), function: "g".to_string() }),
        ],
        crons: vec![("tick".to_string(), ManifestCron { schedule: "every 5 minutes".to_string(), function: "h".to_string() })],
    };
    let package = parse_manifest("/f/demo", Some("demo"), true, ManifestSource::Parsed(manifest));
    assert_eq!(package.routes.len(), 1);
    assert_eq!(package.routes[0].path, "/hello");
    assert_eq!(package.routes[0].method, "POST");
    assert_eq!(package.routes[0].wasm_path, "/f/demo/functions.wasm");
    assert_eq!(package.errors, vec!["route 'bad' uses reserved path '/_x'"]);
    assert_eq!(package.crons[0].id, "tick");
    let invalid = parse_manifest("/f/x", None, true, ManifestSource::Invalid("bad".to_string()));
    assert_eq!(invalid.name, "unknown");
    assert_eq!(invalid.errors, vec!["invalid manifest.toml: bad"]);
}

#[test]
fn snapshot_sorts_and_marks_conflicts() {
    let sorted = sort_packages(vec![package("b", &[("r", "/x")]), package("a", &[("q", "/x")])]);
    assert_eq!(sorted[0].name, "a");
    let marked = mark_route_conflicts(sorted);
    assert!(marked[0].errors.is_empty());
    assert_eq!(marked[1].errors, vec!["route conflict for GET /x"]);
}

#[test]
fn run_outcomes_become_responses() {
    let missing = function_result("f", "function.response", RunOutcome::RuntimeMissing);
    assert_eq!(missing.response.status, 500);
    assert_eq!(missing.response.body, "rack: wasmtime is required to run functions.wasm");
    let failed = function_result("f", "function.response", RunOutcome::Failed(" boom \n".to_string()));
    assert_eq!(failed.response.body, "rack: function 'f' failed\nboom");
    let ok = function_result("f", "function.response", RunOutcome::Succeeded(r#"{"status":99,"body":"hi"}"#.to_string()));
    assert_eq!(ok.response.status, 200);
    assert_eq!(ok.response.body, "hi");
    let plain = function_result("f", "cron.response", RunOutcome::Succeeded("{}".to_string()));
    assert_eq!(plain.response.body, "{}");
    assert_eq!(plain.log_status, 200);
    let launch = function_result("f", "function.response", RunOutcome::LaunchFailed("no".to_string()));
    assert_eq!(launch.log_error.as_deref(), Some("no"));
}

#[test]
fn function_logs_are_placed_and_read() {
    assert_eq!(safe_log_component("--My Pkg!--"), "My-Pkg");
    assert_eq!(safe_log_component("!!!"), "unknown");
    let request = json(r#"{"route":{"package":"pkg","id":"r1"}}"#);
    let target = function_log_target(&request, "function.response");
    assert_eq!(target.kind, "routes");
    assert_eq!(function_log_path("/home/u", &target, "2024-01-01"), "/home/u/.rack/logs/functions/pkg/routes/r1/2024-01-01.jsonl");
    let cron = function_log_target(&json(r#"{"package":"p"}"#), "cron.response");
    assert_eq!(cron.id, "unknown");
    let lines = stderr_log_lines("plain\n\n{\"rack_log\":true,\"level\":\"warn\",\"message\":\"m\"}\n");
    assert_eq!(lines.len(), 2);
    assert_eq!(lines[0].level, "stderr");
    assert_eq!(lines[1].level, "warn");
    assert_eq!(lines[1].message, "m");
}

#[test]
fn ipc_requests_change_the_configuration() {
    let mut configuration = PersistedConfiguration { servers: Vec::new() };
    let context = json(r#"{"boundPort":1355,"statuses":[{"id":"s1","running":true,"pid":42}]}"#);
    let payload = RegisterPayload {
        name: "Demo App".to_string(),
        command: "npm run dev".to_string(),
        working_directory: "/tmp/demo".to_string(),
        environment: vec![("RUST_LOG".to_string(), "debug".to_string())],
        port_flag: Some("--port".to_string()),
    };
    let outcome = ipc_register(&mut configuration, payload, "s1".to_string(), vec!["e1".to_string()], &context);
    match outcome.reply {
        IpcReply::Registered { name, url } => {
            assert_eq!(name, "Demo App");
            assert_eq!(url, "http://demo-app.localhost:1355");
        }
        _ => panic!("expected a registration"),
    }
    assert_eq!(outcome.action.unwrap().kind, "start");
    match ipc_list(&configuration, &context).reply {
        IpcReply::Servers(servers) => {
            assert_eq!(servers.len(), 1);
            assert!(servers[0].running);
            assert_eq!(servers[0].pid, Some(42));
        }
        _ => panic!("expected servers"),
    }
    assert!(matches!(ipc_request(&json(r#"{"type":"remove","payload":"x"}"#)), IpcRequest::Remove(Some(_))));
    match ipc_remove(&mut configuration, Some("nope".to_string())).reply {
        IpcReply::Error(message) => assert_eq!(message, "no server named 'nope'"),
        _ => panic!("expected an error"),
    }
    assert!(ipc_remove(&mut configuration, Some("Demo App".to_string())).save);
    assert!(configuration.servers.is_empty());
}

#[test]
fn commands_go_to_their_handlers() {
    assert!(matches!(core_command("servers.snapshot", false), CoreCommand::ServersSnapshot));
    assert!(matches!(core_command("routes.list", false), CoreCommand::Route(_)));
    assert!(matches!(core_command("state.snapshot", false), CoreCommand::NotRunning));
    assert!(matches!(core_command("state.snapshot", true), CoreCommand::StateSnapshot));
    assert!(matches!(core_command("whatever", true), CoreCommand::Ack));
    assert_eq!(ack_response(""), r#"{"type":"ack","payload":{"backend":"rust","command":null}}"#);
    assert_eq!(
        state_snapshot_response(7, "[]", "[]"),
        r#"{"type":"state.snapshot","payload":{"backend":"rust","started_at_ms":7,"servers":[],"functions":[]}}"#
    );
}

#[test]
fn schedules_parse_days_and_times() {
    assert!(matches!(parse_days("thurs"), Ok(CalendarDays::One(3))));
    assert_eq!(parse_days("noday").err().as_deref(), Some("unsupported calendar day 'noday'"));
    assert_eq!(parse_time("9:30am").unwrap(), (9, 30));
    assert_eq!(parse_time("12am").unwrap(), (0, 0));
    assert_eq!(parse_time("5 pm").unwrap(), (17, 0));
    assert_eq!(parse_time("25:00").err().as_deref(), Some("invalid time '25:00'"));
    assert_eq!(parse_time("x").err().as_deref(), Some("invalid hour"));
    assert!(day_matches(&CalendarDays::Weekdays, 4));
    assert!(!day_matches(&CalendarDays::Weekdays, 5));
    assert!(matches!(schedule_expression("  Every 5 Minutes "), ScheduleExpression::Interval(rest) if rest == "5 minutes"));
}

#[test]
fn scheduler_reports_broken_schedules_once() {
    let mut state = SchedulerState::new();
    let key = cron_key("pkg", "tick");
    assert_eq!(key, "pkg:tick");
    assert!(state.schedule_invalid(&key));
    assert!(!state.schedule_invalid(&key));
    assert_eq!(state.due(&key, 100, 200), None);
    assert!(state.schedule_invalid(&key));
    assert_eq!(state.due(&key, 250, 999), Some(200));
    state.ran(&key, Some(300));
    assert_eq!(state.due(&key, 250, 999), None);
}

#[test]
fn ports_are_read_and_chosen() {
    let ports = parse_lsof_ports("p1\nn127.0.0.1:5173\nn*:80\nn[::1]:8080\nn10.0.0.1:9000\nn127.0.0.1:5173\n");
    assert_eq!(ports.len(), 2);
    assert!(ports.contains(&5173) && ports.contains(&8080));
    assert_eq!(next_port_candidate(&vec![4000, 4001], 0), Some(4002));
    assert_eq!(next_port_candidate(&vec![], 5000), None);
    assert_eq!(newly_listening_port(&vec![3000, 5000, 900], &vec![3000]), Some(5000));
    assert_eq!(backend_candidates(&vec![9, 3, 5, 3], &vec![5]), vec![3, 9]);
}

#[test]
fn cli_arguments_are_read() {
    let args: Vec<String> = ["--socket", "/tmp/s", "--port", "4000", "--", "npm", "run", "dev"]
        .iter()
        .map(|s| s.to_string())
        .collect();
    let parsed = parse_bridge_args(&args).unwrap();
    assert_eq!(parsed.port, 4000);
    assert_eq!(parsed.command, "npm");
    assert_eq!(parsed.command_args, vec!["run", "dev"]);
    let bad = vec!["--port".to_string(), "x".to_string()];
    assert_eq!(parse_bridge_args(&bad).err().as_deref(), Some("--port must be a number"));
    assert!(matches!(cli_command(&vec!["start".to_string()]), CliCommand::Misused(_)));
    let install: Vec<String> = ["install", "--link", "pkg"].iter().map(|s| s.to_string()).collect();
    match function_command(&install) {
        FunctionCommand::Install { path, replace, link } => {
            assert_eq!(path.as_deref(), Some("pkg"));
            assert!(!replace && link);
        }
        _ => panic!("expected install"),
    }
    assert_eq!(parse_function_test_args(&vec!["f".to_string()], false), (None, Some("f".to_string())));
    assert_eq!(sanitize_name("  My Func!!"), "my-func");
    assert_eq!(sanitize_name("!!"), "rack-function");
    assert_eq!(infer_cli_name(Some("dir"), Some("git@x:me/Repo.git"), None), "repo");
    assert_eq!(
        cargo_cdylib_target_name(r#"{"packages":[{"name":"p","targets":[{"name":"t","kind":["cdylib"]}]}]}"#).unwrap(),
        "t"
    );
    let manifest = Manifest { name: "m".to_string(), version: "1".to_string(), routes: vec![], crons: vec![] };
    assert!(function_test_request(&manifest, None).is_err());
    assert!(matches!(function_test_request(&manifest, Some("f")).unwrap().1, TestRequest::Http { .. }));
}

#[test]
fn small_texts_are_built() {
    assert_eq!(shell_escape("it's"), r"'it'\''s'");
    assert_eq!(shell_escape(""), "''");
    assert_eq!(config_path("/home/u", None), "/home/u/.config/rack/config.toml");
    assert_eq!(config_path("/home/u", Some("/xdg")), "/xdg/rack/config.toml");
    let dashed = server("My Site.localhost", "x");
    assert_eq!(route_subdomain(&dashed), "my-site");
    let cli = detect_cli(&manifest(&["package.json"], &[("package.json", r#"{"scripts":{"dev":"next dev"},"dependencies":{"next":"1"}}"#)])).unwrap();
    assert_eq!(cli.command, "npm run dev");
    assert_eq!(cli.port_flag.as_deref(), Some("-p"));
}

#[test]
fn config_ipc_register_persists_server_and_list_uses_status_context() {
    let mut configuration = PersistedConfiguration { servers: Vec::new() };
    let payload = RegisterPayload {
        name: "Demo App".to_string(),
        command: "npm run dev".to_string(),
        working_directory: "/tmp/demo".to_string(),
        environment: vec![("RUST_LOG".to_string(), "debug".to_string())],
        port_flag: Some("--port".to_string()),
    };
    let context = json(r#"{"boundPort":1355,"standardPortsEnabled":false,"statuses":[]}"#);
    let outcome = ipc_register(&mut configuration, payload, "demo-id".to_string(), vec!["env-id".to_string()], &context);
    assert!(outcome.save);
    match outcome.reply {
        IpcReply::Registered { url, .. } => assert_eq!(url, "http://demo-app.localhost:1355"),
        _ => panic!("expected a registration"),
    }
    let id = outcome.action.unwrap().id;
    assert_eq!(configuration.servers.len(), 1);
    assert_eq!(configuration.servers[0].command, "npm run dev");
    let listing_context = json(&format!(
        r#"{{"boundPort":1355,"standardPortsEnabled":false,"statuses":[{{"id":"{id}","running":true,"pid":42}}]}}"#
    ));
    match ipc_list(&configuration, &listing_context).reply {
        IpcReply::Servers(servers) => {
            assert_eq!(servers[0].name, "Demo App");
            assert!(servers[0].running);
            assert_eq!(servers[0].pid, Some(42));
        }
        _ => panic!("expected servers"),
    }
}

#[test]
fn json_strings_are_escaped() {
    assert_eq!(json_string("a\"b\\c\n\u{1}\u{7f}é"), "\"a\\\"b\\\\c\\n\\u0001\u{7f}é\"");
    assert_eq!(json_string("\u{8}\t\u{c}\r\u{1f}"), "\"\\b\\t\\f\\r\\u001f\"");
}

#[test]
fn calendar_runs_on_the_first_matching_day_after() {
    let weekdays_at_nine = parse_calendar("weekdays at 9am").unwrap();
    let mut instants: Vec<Option<i64>> = (0..14).map(|k| Some(1_000 + k * 100)).collect();
    // Day 0 is a Saturday (weekday 5): the first weekday run is day 2, Monday.
    assert_eq!(next_calendar_after(&weekdays_at_nine, 0, 5, &instants), Some(1_200));
    // A run not after the given instant is skipped.
    assert_eq!(next_calendar_after(&weekdays_at_nine, 1_200, 5, &instants), Some(1_300));
    // A day whose local time does not exist is skipped.
    instants[2] = None;
    assert_eq!(next_calendar_after(&weekdays_at_nine, 0, 5, &instants), Some(1_300));
    assert_eq!(next_calendar_after(&weekdays_at_nine, 10_000, 5, &instants), None);
}

#[test]
fn deeply_nested_route_globs_are_errors() {
    let pattern = format!("/{}b{}", "{a,".repeat(300), "}".repeat(300));
    assert!(route_matches(&pattern, "/a").is_err());
    assert!(validate_route_path(&pattern).is_err());
    assert_eq!(route_matches("/a/{b,c}", "/a/c"), Ok(true));
}

#[test]
fn packages_with_equal_names_keep_their_order() {
    let mut first = package("b", &[]);
    first.root = "/first".to_string();
    let mut second = package("b", &[]);
    second.root = "/second".to_string();
    let sorted = sort_packages(vec![first, package("c", &[]), second, package("a", &[])]);
    let roots: Vec<&str> = sorted.iter().map(|p| p.root.as_str()).collect();
    assert_eq!(roots, vec!["/f/a", "/first", "/second", "/f/c"]);
}

#[test]
fn handler_signatures_choose_their_runner() {
    let sig = |args: Vec<HandlerArg>, ret: Option<&str>, tail: bool| HandlerSignature {
        args,
        return_last_segment: ret.map(|r| r.to_string()),
        ends_with_expression: tail,
    };
    let request = |args: SegmentArgs| HandlerArg::Typed(ArgType { last_segment: Some(("Request".to_string(), args)) });
    assert!(matches!(handler_plan(HandlerKind::Route, &sig(vec![], Some("Response"), true)), Ok(HandlerRunner::RouteEmpty)));
    assert!(matches!(handler_plan(HandlerKind::Cron, &sig(vec![], Some("Response"), true)), Ok(HandlerRunner::CronEmpty)));
    match handler_plan(HandlerKind::Route, &sig(vec![request(SegmentArgs::FirstType("Message".to_string()))], Some("Response"), true)) {
        Ok(HandlerRunner::Route(body)) => assert_eq!(body, "Message"),
        _ => panic!("expected a route runner"),
    }
    match handler_plan(HandlerKind::Route, &sig(vec![request(SegmentArgs::NoArgs)], Some("Response"), true)) {
        Ok(HandlerRunner::Route(body)) => assert_eq!(body, "()"),
        _ => panic!("expected a route runner"),
    }
    let event = HandlerArg::Typed(ArgType { last_segment: Some(("CronEvent".to_string(), SegmentArgs::NoArgs)) });
    assert!(matches!(handler_plan(HandlerKind::Cron, &sig(vec![event], Some("Response"), true)), Ok(HandlerRunner::Cron)));
    let err = |kind, s: HandlerSignature| handler_plan(kind, &s).err().unwrap();
    assert_eq!(err(HandlerKind::Route, sig(vec![HandlerArg::Receiver, HandlerArg::Receiver], Some("Response"), true)),
        "rack handlers accept zero args or one rack::Request<T>/rack::CronEvent arg");
    assert_eq!(err(HandlerKind::Route, sig(vec![], Some("String"), true)), "rack handlers must return rack::Response");
    assert_eq!(err(HandlerKind::Route, sig(vec![], Some("Response"), false)), "rack handlers must end with a rack::Response expression");
    assert_eq!(err(HandlerKind::Cron, sig(vec![HandlerArg::Receiver], Some("Response"), true)), "rack handlers cannot take self");
    assert_eq!(err(HandlerKind::Route, sig(vec![request(SegmentArgs::Other)], Some("Response"), true)), "route handlers take rack::Request<T> or no args");
    assert_eq!(err(HandlerKind::Cron, sig(vec![request(SegmentArgs::NoArgs)], Some("Response"), true)), "cron handlers take rack::CronEvent or no args");
}

#[test]
fn init_writes_a_package_for_its_name() {
    let (cargo, manifest, lib) = rack::cli::init_package_files("demo", "/home/u/.rack/sdk");
    assert!(cargo.starts_with("[package]\nname = \"rack-demo\"\n"));
    assert!(cargo.contains("rack = { path = \"/home/u/.rack/sdk\" }"));
    assert!(manifest.starts_with("name = \"demo\"\n"));
    assert!(manifest.contains("schedule = \"every 5 minutes\""));
    assert!(lib.contains("#[rack::cron]"));
}

#[test]
fn ascii_case_mapping() {
    assert_eq!(rack::text::to_lowercase("Demo App"), "demo app");
    assert_eq!(rack::text::to_uppercase("get"), "GET");
}
