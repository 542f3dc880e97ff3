use pipeline_viewer::origin::parse_origin;

#[test]
fn test_parse_origin() {
    assert_eq!(
        parse_origin(&"https://gitlab.com/julianbuettner/pipelinetesting".to_string()),
        Some((
            "gitlab.com".to_string(),
            "julianbuettner/pipelinetesting".to_string()
        ))
    );
    assert_eq!(
        parse_origin(&"git@gitlab.com:julianbuettner/pipelinetesting.git".to_string()),
        Some((
            "gitlab.com".to_string(),
            "julianbuettner/pipelinetesting".to_string()
        ))
    );
    assert_eq!(
        parse_origin(
            &"git@gitlab.com:gitlab-container-release-monitor/release-monitor-frontend.git"
                .to_string()
        ),
        Some((
            "gitlab.com".to_string(),
            "gitlab-container-release-monitor/release-monitor-frontend".to_string()
        ))
    );
    assert_eq!(
        parse_origin(&"https://gitlab.com/julianbuettner/gitlab-pipeline-viewer".to_string()),
        Some((
            "gitlab.com".to_string(),
            "julianbuettner/gitlab-pipeline-viewer".to_string()
        ))
    );
}

#[test]
fn unparsable_origin() {
    assert_eq!(parse_origin(&"/srv/git/project".to_string()), None);
    assert_eq!(parse_origin(&"".to_string()), None);
}

#[test]
fn http_origin_without_tls() {
    assert_eq!(
        parse_origin(&"http://git.example.org/team/tool".to_string()),
        Some(("git.example.org".to_string(), "team/tool".to_string()))
    );
}
