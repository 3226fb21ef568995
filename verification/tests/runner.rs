use hornet2::runner::k6::{run_counts, K6Runner};

#[test]
fn test_k6_runner_creation() {
    let runner = K6Runner::new();
    assert_eq!(runner.k6_path, "k6");
    let runner = K6Runner::with_path("/usr/local/bin/k6".to_string());
    assert_eq!(runner.k6_path, "/usr/local/bin/k6");
}

#[test]
fn test_k6_runner_with_args() {
    let runner = K6Runner::new().with_args(vec!["--no-color".to_string(), "--quiet".to_string()]);
    assert_eq!(runner.extra_args, vec!["--no-color", "--quiet"]);
}

#[test]
fn test_k6_run_arguments() {
    let runner = K6Runner::new().with_args(vec!["--quiet".to_string()]);
    assert_eq!(runner.run_arguments("s.js"), vec!["run", "--quiet", "s.js"]);
    assert_eq!(K6Runner::default().k6_path, "");
}

#[test]
fn test_parse_output() {
    let sample_output = r#"
          scenarios: (100.00%) 1 scenario, 1 max VUs, 10m30s max duration (incl. graceful stop):
                   * default: 1 iterations for each of 1 VUs (maxDuration: 10m0s, gracefulStop: 30s)

     data_received..................: 0 B   0 B/s
     data_sent......................: 0 B   0 B/s
     http_req_blocked...............: avg=0s       min=0s      med=0s      max=0s      p(90)=0s      p(95)=0s
     http_req_connecting............: avg=0s       min=0s      med=0s      max=0s      p(90)=0s      p(95)=0s
     http_req_duration..............: avg=123.45ms min=100ms   med=120ms   max=150ms   p(90)=140ms   p(95)=145ms
     http_req_failed................: 0.00% ✓ 0       ✗ 4
     http_req_receiving.............: avg=0s       min=0s      med=0s      max=0s      p(90)=0s      p(95)=0s
     http_req_sending...............: avg=0s       min=0s      med=0s      max=0s      p(90)=0s      p(95)=0s
     http_req_tls_handshaking.......: avg=0s       min=0s      med=0s      max=0s      p(90)=0s      p(95)=0s
     http_req_waiting...............: avg=0s       min=0s      med=0s      max=0s      p(90)=0s      p(95)=0s
     http_reqs......................: 4     0.123456/s
     iteration_duration.............: avg=1s       min=1s      med=1s      max=1s      p(90)=1s      p(95)=1s
     iterations.....................: 1     0.030864/s
     vus............................: 1     min=1       max=1
     vus_max........................: 1     min=1       max=1
     checks.........................: 100.00% ✓ 8       ✗ 0
        "#;

    let metrics = run_counts(sample_output);
    assert_eq!(metrics.http_reqs, 4);
    assert_eq!(metrics.iterations, 1);
    assert_eq!(metrics.checks_passed, 8);
    assert_eq!(metrics.checks_failed, 0);
    assert_eq!(metrics.vus, 1);
}

#[test]
fn run_counts_of_missing_or_oversized_numbers_are_zero() {
    let c = run_counts("nothing here");
    assert_eq!((c.http_reqs, c.iterations, c.vus, c.checks_passed, c.checks_failed), (0, 0, 0, 0, 0));
    let c = run_counts("vus....: 4294967296\nhttp_reqs....: 18446744073709551616\niterations...: 7");
    assert_eq!(c.vus, 0);
    assert_eq!(c.http_reqs, 0);
    assert_eq!(c.iterations, 7);
}
