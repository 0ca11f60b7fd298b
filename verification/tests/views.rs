use beansd::beansd::registry::{Project, ProjectState, Registry};
use beansd::beansd::views::{project_views, resolve_active, ProjectView};
use beansd::paths::tildify;

fn tildify_str(path: &str, home: Option<&str>) -> String {
    let home = home.map(|h| h.to_string());
    tildify(&path.to_string(), home.as_ref())
}

fn view(key: &str, port: Option<u16>) -> ProjectView {
    ProjectView {
        key: key.to_string(),
        display_path: key.into(),
        display_name: key.into(),
        state: if port.is_some() { "healthy" } else { "dead" },
        port,
    }
}

#[test]
fn tildify_collapses_home_prefix() {
    assert_eq!(tildify_str("/home/jo/workspace/dotfiles", Some("/home/jo")), "~/workspace/dotfiles");
    assert_eq!(tildify_str("/home/jo", Some("/home/jo")), "~");
}

#[test]
fn tildify_only_collapses_a_leading_home() {
    assert_eq!(
        tildify_str("/srv/home/jo/p", Some("/home/jo")),
        "/srv/home/jo/p",
        "home appearing mid-path is not a prefix"
    );
    assert_eq!(
        tildify_str("/home/jo/home/jo/p", Some("/home/jo")),
        "~/home/jo/p",
        "only the leading occurrence collapses, not every match"
    );
}

#[test]
fn tildify_leaves_paths_outside_home_alone() {
    assert_eq!(tildify_str("/tmp/p", Some("/home/jo")), "/tmp/p");
    assert_eq!(
        tildify_str("/home/jo-backup/p", Some("/home/jo")),
        "/home/jo-backup/p",
        "sibling dir sharing a name prefix is not under home"
    );
}

#[test]
fn tildify_falls_back_without_a_usable_home() {
    assert_eq!(tildify_str("/home/jo/p", None), "/home/jo/p");
    assert_eq!(tildify_str("/home/jo/p", Some("")), "/home/jo/p", "an empty HOME must not swallow every path");
}

#[test]
fn tildify_handles_trailing_slash_and_root_home() {
    assert_eq!(tildify_str("/home/jo/p", Some("/home/jo/")), "~/p");
    assert_eq!(tildify_str("/tmp/p", Some("/")), "~/tmp/p");
    assert_eq!(tildify_str("relative/p", Some("/home/jo")), "relative/p");
}

#[test]
fn resolve_active_returns_match_only_when_port_present() {
    let projects = vec![view("/a", Some(4242)), view("/b", None)];
    let a = "/a".to_string();
    let b = "/b".to_string();
    let missing = "/c".to_string();
    assert!(resolve_active(&projects, Some(&a)).is_some());
    assert!(resolve_active(&projects, Some(&b)).is_none(), "no port -> None");
    assert!(resolve_active(&projects, Some(&missing)).is_none());
    assert!(resolve_active(&projects, None).is_none());
}

#[test]
fn project_views_label_states_and_shorten_paths() {
    let mut r: Registry<u32> = Registry::new();
    r.insert(Project::new("/home/jo/p".into(), "p".into(), ProjectState::Healthy { port: 4242, child: 1 }))
        .unwrap();
    r.insert(Project::new("/tmp/q".into(), "q".into(), ProjectState::Spawning)).unwrap();
    let home = "/home/jo".to_string();
    let views = project_views(&r, Some(&home));
    assert_eq!(views.len(), 2);
    assert_eq!(views[0].key, "/home/jo/p");
    assert_eq!(views[0].display_path, "~/p");
    assert_eq!(views[0].state, "healthy");
    assert_eq!(views[0].port, Some(4242));
    assert_eq!(views[1].display_path, "/tmp/q");
    assert_eq!(views[1].state, "spawning");
    assert_eq!(views[1].port, None);
    let active = resolve_active(&views, Some(&"/home/jo/p".to_string())).unwrap();
    assert_eq!(active.port, Some(4242));
}

#[test]
fn tildify_keeps_the_rest_as_written() {
    assert_eq!(tildify_str("/home/jo/a//b", Some("/home/jo")), "~/a//b");
    assert_eq!(tildify_str("/home/jo//a/./b/", Some("/home/jo")), "~/a/./b");
    assert_eq!(tildify_str("/home/jo/./", Some("/home/jo")), "~");
    assert_eq!(tildify_str("//home//jo", Some("/home/jo")), "~");
}

#[test]
fn resolve_active_compares_keys_as_paths() {
    let projects = vec![view("/a", Some(4242)), view("/b/", Some(4343))];
    let a_slash = "/a/".to_string();
    let b = "/b".to_string();
    let a_dot = "/./a".to_string();
    let rel = "a".to_string();
    assert_eq!(resolve_active(&projects, Some(&a_slash)).unwrap().port, Some(4242));
    assert_eq!(resolve_active(&projects, Some(&a_dot)).unwrap().port, Some(4242));
    assert_eq!(resolve_active(&projects, Some(&b)).unwrap().port, Some(4343));
    assert!(resolve_active(&projects, Some(&rel)).is_none());
}
