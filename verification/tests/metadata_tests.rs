use example_gallery::error::GalleryError;
use example_gallery::metadata::ExampleMetadata;
use example_gallery::render::{comma_and_join, copy_texts};
use example_gallery::source::MetadataSource;

const CODE: &str = "# Laplace\n#\n# Solve it.\n\nimport nutils\n# example:thumbnail=1:tags=a,b\n";
const REPORT: &str = "/tmp/clone\n0123456789abcdef0123456789abcdef01234567\n";

fn record(repository: &str) -> ExampleMetadata {
    ExampleMetadata {
        id: "user-demo".to_owned(),
        name: "Demo".to_owned(),
        authors: vec!["Ann".to_owned(), "Bob".to_owned()],
        description: "# Title\n\nSome *text*.\n".to_owned(),
        repository: repository.to_owned(),
        revision: "abc123".to_owned(),
        script: "examples/demo.py".to_owned(),
        tags: vec!["user".to_owned(), "demo".to_owned()],
        image_names: None,
        image_index: None,
        thumbnail_index: Some(0),
    }
}

fn list(items: &[&str]) -> Vec<String> {
    items.iter().map(|s| s.to_string()).collect()
}

#[test]
fn from_py_fills_every_field() {
    let m = ExampleMetadata::from_py("/tmp/clone/examples/laplace.py", REPORT, CODE).unwrap();
    assert_eq!(m.id, "official-laplace");
    assert_eq!(m.name, "Laplace");
    assert_eq!(m.authors, vec!["Evalf", "other Nutils contributors"]);
    assert_eq!(m.description, "Solve it.\n");
    assert_eq!(m.repository, "https://github.com/evalf/nutils.git");
    assert_eq!(m.revision, "0123456789abcdef0123456789abcdef01234567");
    assert_eq!(m.script, "examples/laplace.py");
    assert_eq!(m.tags, vec!["official", "a", "b"]);
    assert_eq!(m.image_names, None);
    assert_eq!(m.image_index, None);
    assert_eq!(m.thumbnail_index, Some(1));
}

#[test]
fn embedded_modeline_gives_thumbnail_and_tags() {
    let code = "# x\n#\nx = 1\n# example:thumbnail=1:tags=a,b";
    let m = ExampleMetadata::from_py("/tmp/clone/x.py", REPORT, code).unwrap();
    assert_eq!(m.thumbnail_index, Some(1));
    assert_eq!(m.tags, vec!["official", "a", "b"]);
}

#[test]
fn from_py_without_empty_comment_line_fails() {
    for code in ["# Laplace\n", "# Laplace\n# text\n#\n", "# Laplace\nimport nutils\n", "# Laplace"] {
        assert_eq!(
            ExampleMetadata::from_py("/tmp/clone/examples/laplace.py", REPORT, code).err(),
            Some(GalleryError::MissingSeparator)
        );
    }
}

#[test]
fn script_outside_the_repository_fails_every_time() {
    for _ in 0..3 {
        for path in ["/tmp/other/laplace.py", "/tmp/clone2/laplace.py", "laplace.py", "/tmp/clone"] {
            assert_eq!(
                ExampleMetadata::from_py(path, REPORT, CODE).err(),
                Some(GalleryError::OutsideRepository)
            );
        }
    }
}

#[test]
fn report_must_have_two_lines() {
    for report in ["", "/tmp/clone\n", "/tmp/clone\nabc\nmore\n", "\n\n\n"] {
        assert_eq!(
            ExampleMetadata::from_py("/tmp/clone/a.py", report, CODE).err(),
            Some(GalleryError::RevParse)
        );
    }
}

#[test]
fn from_py_reports_the_earliest_failure() {
    assert_eq!(
        ExampleMetadata::from_py("/tmp/clone/..", "", "").err(),
        Some(GalleryError::NoFileStem)
    );
    assert_eq!(
        ExampleMetadata::from_py("/tmp/clone/a.py", "", "").err(),
        Some(GalleryError::RevParse)
    );
    assert_eq!(
        ExampleMetadata::from_py("/elsewhere/a.py", REPORT, "").err(),
        Some(GalleryError::OutsideRepository)
    );
    assert_eq!(
        ExampleMetadata::from_py("/tmp/clone/a.py", REPORT, "").err(),
        Some(GalleryError::PrematureEnd)
    );
    assert_eq!(
        ExampleMetadata::from_py("/tmp/clone/a.py", REPORT, "# A\n#\n\n# example:x=1").err(),
        Some(GalleryError::InvalidModeline)
    );
}

#[test]
fn resolving_twice_gives_identical_records() {
    let first = ExampleMetadata::from_py("/tmp/clone/examples/laplace.py", REPORT, CODE).unwrap();
    let second = ExampleMetadata::from_py("/tmp/clone/examples/laplace.py", REPORT, CODE).unwrap();
    assert_eq!(first.id, second.id);
    assert_eq!(first.name, second.name);
    assert_eq!(first.authors, second.authors);
    assert_eq!(first.description, second.description);
    assert_eq!(first.repository, second.repository);
    assert_eq!(first.revision, second.revision);
    assert_eq!(first.script, second.script);
    assert_eq!(first.tags, second.tags);
    assert_eq!(first.thumbnail_index, second.thumbnail_index);
}

#[test]
fn script_url_on_github() {
    assert_eq!(
        record("https://github.com/evalf/nutils.git").get_script_url(),
        Ok("https://github.com/evalf/nutils/blob/abc123/examples/demo.py".to_owned())
    );
}

#[test]
fn script_url_on_gitlab() {
    assert_eq!(
        record("https://gitlab.com/group/project.git").get_script_url(),
        Ok("https://gitlab.com/group/project/-/blob/abc123/examples/demo.py".to_owned())
    );
}

#[test]
fn script_url_needs_a_git_address() {
    for repository in ["https://github.com/evalf/nutils", "", "git", "https://github.com/a.git/"] {
        assert_eq!(record(repository).get_script_url(), Err(GalleryError::NotGitAddress));
    }
}

#[test]
fn script_url_of_unknown_provider_fails() {
    for repository in [
        "https://example.org/a/b.git",
        "http://github.com/a/b.git",
        "https://github.com.git",
        ".git",
    ] {
        assert_eq!(record(repository).get_script_url(), Err(GalleryError::UnknownProvider));
    }
}

#[test]
fn authors_are_enumerated() {
    assert_eq!(comma_and_join(&list(&[])), "");
    assert_eq!(comma_and_join(&list(&["Ann"])), "Ann");
    assert_eq!(comma_and_join(&list(&["Ann", "Bob"])), "Ann,  and Bob");
    assert_eq!(comma_and_join(&list(&["Ann", "Bob", "Cy"])), "Ann, Bob,  and Cy");
    assert_eq!(comma_and_join(&list(&["a", "b", "c", "d"])), "a, b, c,  and d");
}

#[test]
fn page_renders_markdown_and_joins_authors() {
    let page = record("https://github.com/o/r.git").page(list(&["one.png", "two.png"])).unwrap();
    assert_eq!(page.name, "Demo");
    assert_eq!(page.authors, "Ann,  and Bob");
    assert_eq!(page.description, "<h1>Title</h1>\n<p>Some <em>text</em>.</p>\n");
    assert_eq!(page.images, vec!["one.png", "two.png"]);
    assert_eq!(page.repository, "https://github.com/o/r.git");
    assert_eq!(page.revision, "abc123");
    assert_eq!(page.script, "examples/demo.py");
    assert_eq!(page.script_url, "https://github.com/o/r/blob/abc123/examples/demo.py");
    assert_eq!(page.tags, vec!["user", "demo"]);
}

#[test]
fn page_fails_where_the_script_url_does() {
    assert_eq!(
        record("https://example.org/r.git").page(vec![]).err(),
        Some(GalleryError::UnknownProvider)
    );
    assert_eq!(record("nowhere").page(vec![]).err(), Some(GalleryError::NotGitAddress));
}

#[test]
fn list_entry_picks_the_thumbnail_from_the_shown_images() {
    let mut example = record("https://github.com/o/r.git");
    let images = list(&["one.png", "two.png", "three.png"]);
    let entry = example.list_entry(&images);
    assert_eq!(entry.name, "Demo");
    assert_eq!(entry.thumbnail, Some("user-demo/one.png".to_owned()));
    assert_eq!(entry.tags, vec!["user", "demo"]);
    assert_eq!(entry.href, "user-demo/");
    example.thumbnail_index = None;
    assert_eq!(example.list_entry(&images).thumbnail, Some("user-demo/three.png".to_owned()));
    example.thumbnail_index = Some(3);
    assert_eq!(example.list_entry(&images).thumbnail, None);
    example.thumbnail_index = Some(1);
    assert_eq!(example.list_entry(&images).thumbnail, Some("user-demo/two.png".to_owned()));
}

#[test]
fn keys_come_from_source_and_stem() {
    let official = MetadataSource::Embedded;
    let user = MetadataSource::Declarative;
    assert_eq!(official.example_id("/c/examples/laplace.py"), Ok(Some("official-laplace".to_owned())));
    assert_eq!(official.example_id("/c/examples/__init__.py"), Ok(None));
    assert_eq!(official.example_id("/c/examples/laplace.yaml"), Ok(None));
    assert_eq!(official.example_id("/c/examples/README"), Ok(None));
    assert_eq!(official.example_id("/c/examples/.py"), Ok(None));
    assert_eq!(official.example_id("/c/examples/.."), Err(GalleryError::NoFileStem));
    assert_eq!(user.example_id("examples/beam.yaml"), Ok(Some("user-beam".to_owned())));
    assert_eq!(user.example_id("examples/__init__.yaml"), Ok(Some("user-__init__".to_owned())));
    assert_eq!(user.example_id("examples/beam.py"), Ok(None));
    assert_eq!(user.example_id("examples/beam.yml"), Ok(None));
    assert_eq!(user.example_id(""), Err(GalleryError::NoFileStem));
}

#[test]
fn pin_replaces_the_revision_by_the_commit() {
    let mut example = record("https://github.com/o/r.git");
    example.revision = "main".to_owned();
    assert!(!example.is_pinned());
    assert_eq!(example.pin(REPORT), Ok(()));
    assert_eq!(example.revision, "0123456789abcdef0123456789abcdef01234567");
    assert!(example.is_pinned());
    let mut other = record("https://github.com/o/r.git");
    other.revision = "0123456789abcdef0123456789abcdef01234567".to_owned();
    assert_eq!(example, other);
    assert_eq!(
        example.get_script_url(),
        Ok("https://github.com/o/r/blob/0123456789abcdef0123456789abcdef01234567/examples/demo.py"
            .to_owned())
    );
}

#[test]
fn pin_wants_a_full_hash() {
    let long = "0123456789abcdef".repeat(4);
    let mut example = record("https://github.com/o/r.git");
    assert_eq!(example.pin(&format!("/tree\n{long}\n")), Ok(()));
    assert_eq!(example.revision, long);
    for report in [
        "",
        "/tree\n",
        "/tree\nmain\n",
        "/tree\n0123456789abcdef0123456789abcdef0123456\n",
        "/tree\n0123456789ABCDEF0123456789abcdef01234567\n",
        "/tree\n0123456789abcdef0123456789abcdef0123456g\n",
        "/tree\n0123456789abcdef0123456789abcdef01234567\nmore\n",
        "0123456789abcdef0123456789abcdef01234567\n",
    ] {
        let mut example = record("https://github.com/o/r.git");
        let before = example.clone();
        assert_eq!(example.pin(report), Err(example_gallery::error::GalleryError::RevParse));
        assert_eq!(example, before);
    }
}

#[test]
fn a_revision_is_pinned_when_it_is_a_full_hash() {
    let mut example = record("https://github.com/o/r.git");
    for (revision, pinned) in [
        ("0123456789abcdef0123456789abcdef01234567", true),
        ("main", false),
        ("release/7", false),
        ("", false),
        ("0123456789abcdef0123456789abcdef0123456", false),
        ("0123456789abcdef0123456789abcdef012345678", false),
        ("0123456789ABCDEF0123456789ABCDEF01234567", false),
    ] {
        example.revision = revision.to_owned();
        assert_eq!(example.is_pinned(), pinned, "{revision}");
    }
}

#[test]
fn lists_of_texts_are_copied() {
    let tags = list(&["a", "", "b c"]);
    assert_eq!(copy_texts(&tags), tags);
    assert!(copy_texts(&vec![]).is_empty());
}
