use page_fetcher::job::Job;
use page_fetcher::report::{exhausted_line, success_line, unknown_line};

#[test]
fn report_lines() {
    let j = Job::new("job1".to_string(), "http://example.com".to_string(), "out 1.html".to_string());
    assert_eq!(success_line(&j), "job1 success http://example.com out 1.html");
    assert_eq!(exhausted_line(&j), "job1 error Too many timeouts, retries exhausted.");
    assert_eq!(unknown_line(&j, "getting html content", "boom"), "job1 error Unknown error while getting html content: boom");
}
