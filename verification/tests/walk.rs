use git_subdir::listing::ListingItem;
use git_subdir::url::{GitHubUrl, PathPolicy, UrlError};
use git_subdir::failure::WalkError;
use git_subdir::options::TraversalOptions;
use git_subdir::walk::{Step, Summary, Walk};
use std::collections::{HashMap, HashSet};

/// A remote site held in memory: pages by URL, files by raw URL.
struct Remote {
    pages: HashMap<String, String>,
    files: HashMap<String, String>,
    unwritable: HashSet<String>,
}

/// What a traversal did, in order.
struct Run {
    output_root: String,
    listings: Vec<String>,
    written: Vec<(String, String)>,
    notices: Vec<String>,
    log: Vec<String>,
    summary: Summary,
}

fn row(content_type: &str, name: &str, path: &str) -> ListingItem {
    ListingItem {
        content_type: content_type.to_string(),
        name: name.to_string(),
        path: path.to_string(),
    }
}

fn page(rows: &[(&str, &str, &str)]) -> String {
    let items: Vec<String> = rows
        .iter()
        .map(|(content_type, name, path)| {
            format!(
                "{{\"name\":\"{}\",\"path\":\"{}\",\"contentType\":\"{}\"}}",
                name, path, content_type
            )
        })
        .collect();
    format!(
        "<!DOCTYPE html><html><head><script type=\"application/json\" \
         data-target=\"react-app.embeddedData\">{{\"payload\":{{\"tree\":{{\"items\":[{}]}}}}}}\
         </script></head><body></body></html>",
        items.join(",")
    )
}

fn remote(pages: &[(&str, String)], files: &[(&str, &str)]) -> Remote {
    Remote {
        pages: pages.iter().map(|(url, body)| (url.to_string(), body.clone())).collect(),
        files: files.iter().map(|(url, text)| (url.to_string(), text.to_string())).collect(),
        unwritable: HashSet::new(),
    }
}

fn drive(remote: &Remote, requested: GitHubUrl, options: TraversalOptions) -> Run {
    let output_root = options.output_root.clone();
    let mut listings = Vec::new();
    let mut written = Vec::new();
    let mut notices = Vec::new();
    let mut log = Vec::new();
    let mut step = Step::FetchListing(Walk::start(requested, options));
    loop {
        step = match step {
            Step::FetchListing(request) => {
                let url = request.url();
                log.push(format!("list {}", url));
                listings.push(url.clone());
                match remote.pages.get(&url) {
                    Some(body) => request.fetched(body),
                    None => request.failed(),
                }
            }
            Step::FetchFile(request) => {
                let mut local = output_root.clone();
                for segment in &request.relative_path {
                    local.push('/');
                    local.push_str(segment);
                }
                log.push(format!("file {}", request.raw_url));
                match remote.files.get(&request.raw_url) {
                    Some(_) if remote.unwritable.contains(&local) => request.write_failed(),
                    Some(text) => {
                        written.push((local, text.clone()));
                        request.written()
                    }
                    None => request.fetch_failed(),
                }
            }
            Step::SkipSymlink(notice) => {
                log.push(format!("skip {}", notice.path));
                notices.push(notice.message());
                notice.noted()
            }
            Step::Finished(summary) => {
                return Run { output_root, listings, written, notices, log, summary };
            }
        };
    }
}

fn get_git_subdir(
    remote: &Remote,
    url: &String,
    output: Option<String>,
    ignore_subdirs: bool,
    preserve_path_structure: bool,
) -> Run {
    let requested = GitHubUrl::new(url).unwrap();
    let options =
        TraversalOptions::resolve(&requested, output, ignore_subdirs, preserve_path_structure)
            .unwrap();
    drive(remote, requested, options)
}

fn paths(run: &Run) -> Vec<&str> {
    run.written.iter().map(|(path, _)| path.as_str()).collect()
}

fn pick() -> Remote {
    remote(
        &[
            (
                "https://github.com/keziah55/pick/tree/main/mediabrowser",
                page(&[
                    ("directory", "templates", "mediabrowser/templates"),
                    ("directory", "migrations", "mediabrowser/migrations"),
                    ("file", "__init__.py", "mediabrowser/__init__.py"),
                    ("file", "views.py", "mediabrowser/views.py"),
                ]),
            ),
            (
                "https://github.com/keziah55/pick/tree/main/mediabrowser/templates",
                page(&[("directory", "mediabrowser", "mediabrowser/templates/mediabrowser")]),
            ),
            (
                "https://github.com/keziah55/pick/tree/main/mediabrowser/templates/mediabrowser",
                page(&[
                    ("file", "index.html", "mediabrowser/templates/mediabrowser/index.html"),
                    ("file", "base.html", "mediabrowser/templates/mediabrowser/base.html"),
                ]),
            ),
            (
                "https://github.com/keziah55/pick/tree/main/mediabrowser/migrations",
                page(&[("file", "0001_initial.py", "mediabrowser/migrations/0001_initial.py")]),
            ),
        ],
        &[
            ("https://raw.githubusercontent.com/keziah55/pick/main/mediabrowser/__init__.py", ""),
            ("https://raw.githubusercontent.com/keziah55/pick/main/mediabrowser/views.py", "v"),
            (
                "https://raw.githubusercontent.com/keziah55/pick/main/mediabrowser/templates/mediabrowser/index.html",
                "<html>",
            ),
            (
                "https://raw.githubusercontent.com/keziah55/pick/main/mediabrowser/templates/mediabrowser/base.html",
                "<base>",
            ),
            (
                "https://raw.githubusercontent.com/keziah55/pick/main/mediabrowser/migrations/0001_initial.py",
                "m",
            ),
        ],
    )
}

#[test]
fn test_default_args() {
    let site = remote(
        &[(
            "https://github.com/keziah55/ABBAd_day/tree/master/ABBAd_day",
            page(&[
                ("file", "ABBAd_day.ino", "ABBAd_day/ABBAd_day.ino"),
                ("file", "fileArray.ino", "ABBAd_day/fileArray.ino"),
            ]),
        )],
        &[
            (
                "https://raw.githubusercontent.com/keziah55/ABBAd_day/master/ABBAd_day/ABBAd_day.ino",
                "void setup() {}",
            ),
            (
                "https://raw.githubusercontent.com/keziah55/ABBAd_day/master/ABBAd_day/fileArray.ino",
                "int files[] = {};",
            ),
        ],
    );
    let url = String::from("https://github.com/keziah55/ABBAd_day/tree/master/ABBAd_day");

    let run = get_git_subdir(&site, &url, None, false, false);

    assert_eq!(run.output_root, "ABBAd_day");
    let expected_files = vec!["ABBAd_day.ino", "fileArray.ino"];
    for filename in expected_files {
        assert!(paths(&run).contains(&format!("ABBAd_day/{}", filename).as_str()));
    }
    assert_eq!(run.summary, Summary { written: 2, failure: None });
}

#[test]
fn test_custom_output_path() {
    let site = remote(
        &[(
            "https://github.com/keziah55/git-subdir/tree/main/src",
            page(&[("file", "main.rs", "src/main.rs")]),
        )],
        &[(
            "https://raw.githubusercontent.com/keziah55/git-subdir/main/src/main.rs",
            "//! # git-subdir\n//!\n//! Simple command line tool.\n",
        )],
    );
    let url = String::from("https://github.com/keziah55/git-subdir/tree/main/src");

    let run = get_git_subdir(&site, &url, Some(String::from("tmp_test")), false, false);

    assert_eq!(run.output_root, "tmp_test");
    assert_eq!(paths(&run), vec!["tmp_test/main.rs"]);
    let contents = &run.written[0].1;
    let first_line = contents.split_once("\n").unwrap().0;
    let expected = "//! # git-subdir";
    assert_eq!(first_line, expected, "expected '{}'; got '{}", expected, first_line);
    assert_eq!(run.summary, Summary { written: 1, failure: None });
}

#[test]
fn test_ignore_subdirs() {
    let url = String::from("https://github.com/keziah55/pick/tree/main/mediabrowser");

    let run = get_git_subdir(&pick(), &url, None, true, false);

    assert_eq!(run.output_root, "mediabrowser");
    assert_eq!(paths(&run), vec!["mediabrowser/__init__.py", "mediabrowser/views.py"]);
    for path in paths(&run) {
        assert!(path.ends_with(".py"));
        assert_eq!(path.matches('/').count(), 1, "{:#?} is dir", path);
    }
    assert_eq!(run.listings, vec!["https://github.com/keziah55/pick/tree/main/mediabrowser"]);
    assert_eq!(run.summary, Summary { written: 2, failure: None });
}

#[test]
fn test_relative_path() {
    let url = String::from(
        "https://github.com/keziah55/pick/tree/main/mediabrowser/templates/mediabrowser",
    );

    let run = get_git_subdir(&pick(), &url, Some(String::from("tmp_test")), false, true);

    assert_eq!(
        paths(&run),
        vec![
            "tmp_test/templates/mediabrowser/index.html",
            "tmp_test/templates/mediabrowser/base.html"
        ]
    );
    for path in paths(&run) {
        assert!(path.starts_with("tmp_test/templates/mediabrowser/"));
        assert!(path.ends_with(".html"));
    }
    assert_eq!(run.summary, Summary { written: 2, failure: None });
}

#[test]
fn resolve_takes_the_name_of_the_directory_by_default() {
    let requested =
        GitHubUrl::parse("https://github.com/keziah55/pick/tree/main/mediabrowser/templates")
            .unwrap();
    let options = TraversalOptions::resolve(&requested, None, false, false).unwrap();
    assert_eq!(options.output_root, "templates");
    assert!(!options.ignore_subdirectories);
    assert_eq!(options.path_policy, PathPolicy::RequestRelative);
    let options =
        TraversalOptions::resolve(&requested, Some(String::from("out/dir")), true, true).unwrap();
    assert_eq!(options.output_root, "out/dir");
    assert!(options.ignore_subdirectories);
    assert_eq!(options.path_policy, PathPolicy::RootRelative);
}

#[test]
fn resolve_needs_a_name_or_an_output_directory() {
    let root = GitHubUrl {
        username: String::from("keziah55"),
        repo_name: String::from("pick"),
        branch: String::from("main"),
        path: Vec::new(),
    };
    assert_eq!(
        TraversalOptions::resolve(&root, None, false, false).unwrap_err(),
        UrlError::EmptyPathError
    );
    assert_eq!(
        TraversalOptions::resolve(&root, Some(String::from("out")), false, false)
            .unwrap()
            .output_root,
        "out"
    );
}

#[test]
fn start_asks_for_the_page_of_the_request() {
    let requested =
        GitHubUrl::parse("https://github.com/keziah55/pick/tree/main/mediabrowser").unwrap();
    let options = TraversalOptions::resolve(&requested, None, false, false).unwrap();
    let request = Walk::start(requested, options);
    assert_eq!(request.url(), "https://github.com/keziah55/pick/tree/main/mediabrowser");
    assert_eq!(request.walk.written, 0);
    assert!(request.walk.pending.is_empty());
}

#[test]
fn ignoring_subdirectories_fetches_one_listing_and_the_file() {
    let site = remote(
        &[
            (
                "https://github.com/o/r/tree/main/pkg",
                page(&[("directory", "sub", "pkg/sub"), ("file", "a.txt", "pkg/a.txt")]),
            ),
            (
                "https://github.com/o/r/tree/main/pkg/sub",
                page(&[("file", "b.txt", "pkg/sub/b.txt")]),
            ),
        ],
        &[
            ("https://raw.githubusercontent.com/o/r/main/pkg/a.txt", "a"),
            ("https://raw.githubusercontent.com/o/r/main/pkg/sub/b.txt", "b"),
        ],
    );
    let url = String::from("https://github.com/o/r/tree/main/pkg");
    let run = get_git_subdir(&site, &url, None, true, false);
    assert_eq!(
        run.log,
        vec![
            "list https://github.com/o/r/tree/main/pkg",
            "file https://raw.githubusercontent.com/o/r/main/pkg/a.txt"
        ]
    );
    assert_eq!(run.written, vec![(String::from("pkg/a.txt"), String::from("a"))]);
    assert_eq!(run.summary, Summary { written: 1, failure: None });
}

fn three_levels() -> Remote {
    remote(
        &[
            (
                "https://github.com/o/r/tree/main/top/mid",
                page(&[
                    ("file", "one.txt", "top/mid/one.txt"),
                    ("directory", "low", "top/mid/low"),
                    ("file", "two.txt", "top/mid/two.txt"),
                ]),
            ),
            (
                "https://github.com/o/r/tree/main/top/mid/low",
                page(&[
                    ("directory", "deep", "top/mid/low/deep"),
                    ("file", "three.txt", "top/mid/low/three.txt"),
                ]),
            ),
            (
                "https://github.com/o/r/tree/main/top/mid/low/deep",
                page(&[("file", "four.txt", "top/mid/low/deep/four.txt")]),
            ),
        ],
        &[
            ("https://raw.githubusercontent.com/o/r/main/top/mid/one.txt", "1"),
            ("https://raw.githubusercontent.com/o/r/main/top/mid/two.txt", "2"),
            ("https://raw.githubusercontent.com/o/r/main/top/mid/low/three.txt", "3"),
            ("https://raw.githubusercontent.com/o/r/main/top/mid/low/deep/four.txt", "4"),
        ],
    )
}

#[test]
fn nested_directories_relative_to_the_root() {
    let url = String::from("https://github.com/o/r/tree/main/top/mid");
    let run = get_git_subdir(&three_levels(), &url, Some(String::from("out")), false, true);
    assert_eq!(
        run.written,
        vec![
            (String::from("out/mid/one.txt"), String::from("1")),
            (String::from("out/mid/low/deep/four.txt"), String::from("4")),
            (String::from("out/mid/low/three.txt"), String::from("3")),
            (String::from("out/mid/two.txt"), String::from("2")),
        ]
    );
    assert_eq!(run.summary, Summary { written: 4, failure: None });
}

#[test]
fn nested_directories_relative_to_the_request() {
    let url = String::from("https://github.com/o/r/tree/main/top/mid");
    let run = get_git_subdir(&three_levels(), &url, Some(String::from("out")), false, false);
    assert_eq!(
        run.written,
        vec![
            (String::from("out/one.txt"), String::from("1")),
            (String::from("out/low/deep/four.txt"), String::from("4")),
            (String::from("out/low/three.txt"), String::from("3")),
            (String::from("out/two.txt"), String::from("2")),
        ]
    );
    assert_eq!(run.summary, Summary { written: 4, failure: None });
}

#[test]
fn a_subdirectory_is_gone_through_before_the_next_entry() {
    let url = String::from("https://github.com/o/r/tree/main/top/mid");
    let run = get_git_subdir(&three_levels(), &url, Some(String::from("out")), false, false);
    assert_eq!(
        run.log,
        vec![
            "list https://github.com/o/r/tree/main/top/mid",
            "file https://raw.githubusercontent.com/o/r/main/top/mid/one.txt",
            "list https://github.com/o/r/tree/main/top/mid/low",
            "list https://github.com/o/r/tree/main/top/mid/low/deep",
            "file https://raw.githubusercontent.com/o/r/main/top/mid/low/deep/four.txt",
            "file https://raw.githubusercontent.com/o/r/main/top/mid/low/three.txt",
            "file https://raw.githubusercontent.com/o/r/main/top/mid/two.txt",
        ]
    );
}

#[test]
fn symlinks_are_reported_and_never_followed() {
    let site = remote(
        &[
            (
                "https://github.com/o/r/tree/main/pkg",
                page(&[
                    ("symlink_file", "link.txt", "pkg/link.txt"),
                    ("symlink_directory", "linked", "pkg/linked"),
                    ("file", "a.txt", "pkg/a.txt"),
                ]),
            ),
            (
                "https://github.com/o/r/tree/main/pkg/linked",
                page(&[("file", "b.txt", "pkg/linked/b.txt")]),
            ),
        ],
        &[
            ("https://raw.githubusercontent.com/o/r/main/pkg/a.txt", "a"),
            ("https://raw.githubusercontent.com/o/r/main/pkg/link.txt", "l"),
            ("https://raw.githubusercontent.com/o/r/main/pkg/linked/b.txt", "b"),
        ],
    );
    let url = String::from("https://github.com/o/r/tree/main/pkg");
    let run = get_git_subdir(&site, &url, None, false, false);
    assert_eq!(
        run.notices,
        vec![
            "\x1b[93mSkipping symlink 'pkg/link.txt'\x1b[0m",
            "\x1b[93mSkipping symlink 'pkg/linked'\x1b[0m"
        ]
    );
    assert_eq!(run.listings, vec!["https://github.com/o/r/tree/main/pkg"]);
    assert_eq!(run.written, vec![(String::from("pkg/a.txt"), String::from("a"))]);
    assert_eq!(run.summary, Summary { written: 1, failure: None });
}

#[test]
fn symlinks_are_reported_where_subdirectories_are_ignored() {
    let site = remote(
        &[(
            "https://github.com/o/r/tree/main/pkg",
            page(&[
                ("directory", "sub", "pkg/sub"),
                ("symlink_directory", "linked", "pkg/linked"),
                ("directory", "other", "pkg/other"),
            ]),
        )],
        &[],
    );
    let url = String::from("https://github.com/o/r/tree/main/pkg");
    let run = get_git_subdir(&site, &url, None, true, false);
    assert_eq!(
        run.log,
        vec!["list https://github.com/o/r/tree/main/pkg", "skip pkg/linked"]
    );
    assert_eq!(run.summary, Summary { written: 0, failure: None });
}

#[test]
fn an_unknown_kind_ends_the_traversal_after_its_siblings() {
    let site = remote(
        &[
            (
                "https://github.com/o/r/tree/main/pkg",
                page(&[
                    ("directory", "first", "pkg/first"),
                    ("directory", "second", "pkg/second"),
                    ("file", "never.txt", "pkg/never.txt"),
                ]),
            ),
            (
                "https://github.com/o/r/tree/main/pkg/first",
                page(&[("file", "a.txt", "pkg/first/a.txt")]),
            ),
            (
                "https://github.com/o/r/tree/main/pkg/second",
                page(&[
                    ("file", "b.txt", "pkg/second/b.txt"),
                    ("submodule", "vendored", "pkg/second/vendored"),
                    ("file", "c.txt", "pkg/second/c.txt"),
                ]),
            ),
        ],
        &[
            ("https://raw.githubusercontent.com/o/r/main/pkg/first/a.txt", "a"),
            ("https://raw.githubusercontent.com/o/r/main/pkg/second/b.txt", "b"),
            ("https://raw.githubusercontent.com/o/r/main/pkg/second/c.txt", "c"),
            ("https://raw.githubusercontent.com/o/r/main/pkg/never.txt", "n"),
        ],
    );
    let url = String::from("https://github.com/o/r/tree/main/pkg");
    let run = get_git_subdir(&site, &url, None, false, false);
    assert_eq!(
        run.written,
        vec![
            (String::from("pkg/first/a.txt"), String::from("a")),
            (String::from("pkg/second/b.txt"), String::from("b")),
        ]
    );
    assert_eq!(
        run.summary,
        Summary {
            written: 2,
            failure: Some(WalkError::UnknownEntryKind {
                path: String::from("pkg/second/vendored"),
                content_type: String::from("submodule"),
            }),
        }
    );
    assert_eq!(
        run.summary.failure.unwrap().message(),
        "\x1b[91mError:\x1b[0m Cannot handle item type 'submodule' of 'pkg/second/vendored'"
    );
}

#[test]
fn a_page_that_cannot_be_fetched_ends_the_traversal() {
    let site = remote(
        &[(
            "https://github.com/o/r/tree/main/pkg",
            page(&[("file", "a.txt", "pkg/a.txt"), ("directory", "gone", "pkg/gone")]),
        )],
        &[("https://raw.githubusercontent.com/o/r/main/pkg/a.txt", "a")],
    );
    let url = String::from("https://github.com/o/r/tree/main/pkg");
    let run = get_git_subdir(&site, &url, None, false, false);
    assert_eq!(
        run.summary,
        Summary {
            written: 1,
            failure: Some(WalkError::FetchError {
                url: String::from("https://github.com/o/r/tree/main/pkg/gone")
            }),
        }
    );
    assert_eq!(
        run.summary.failure.unwrap().message(),
        "\x1b[91mError:\x1b[0m cannot fetch 'https://github.com/o/r/tree/main/pkg/gone'"
    );
    let missing = String::from("https://github.com/o/r/tree/main/nowhere");
    let run = get_git_subdir(&site, &missing, None, false, false);
    assert_eq!(
        run.summary,
        Summary { written: 0, failure: Some(WalkError::FetchError { url: missing }) }
    );
}

#[test]
fn a_file_that_cannot_be_fetched_ends_the_traversal() {
    let site = remote(
        &[(
            "https://github.com/o/r/tree/main/pkg",
            page(&[("file", "a.txt", "pkg/a.txt"), ("file", "b.txt", "pkg/b.txt")]),
        )],
        &[("https://raw.githubusercontent.com/o/r/main/pkg/b.txt", "b")],
    );
    let url = String::from("https://github.com/o/r/tree/main/pkg");
    let run = get_git_subdir(&site, &url, None, false, false);
    assert!(run.written.is_empty());
    assert_eq!(
        run.summary,
        Summary {
            written: 0,
            failure: Some(WalkError::FetchError {
                url: String::from("https://raw.githubusercontent.com/o/r/main/pkg/a.txt")
            }),
        }
    );
}

#[test]
fn a_file_that_cannot_be_written_ends_the_traversal() {
    let mut site = remote(
        &[(
            "https://github.com/o/r/tree/main/pkg",
            page(&[("file", "a.txt", "pkg/a.txt"), ("file", "b.txt", "pkg/sub/b.txt")]),
        )],
        &[
            ("https://raw.githubusercontent.com/o/r/main/pkg/a.txt", "a"),
            ("https://raw.githubusercontent.com/o/r/main/pkg/b.txt", "b"),
        ],
    );
    site.unwritable.insert(String::from("out/sub/b.txt"));
    let url = String::from("https://github.com/o/r/tree/main/pkg");
    let run = get_git_subdir(&site, &url, Some(String::from("out")), false, false);
    assert_eq!(run.written, vec![(String::from("out/a.txt"), String::from("a"))]);
    assert_eq!(
        run.summary,
        Summary {
            written: 1,
            failure: Some(WalkError::IoError {
                place: vec![String::from("sub"), String::from("b.txt")]
            }),
        }
    );
    assert_eq!(
        run.summary.failure.unwrap().message(),
        "\x1b[91mError:\x1b[0m cannot write 'sub/b.txt'"
    );
}

#[test]
fn a_page_without_a_listing_ends_the_traversal() {
    let broken = String::from(
        "<html><head><script type=\"application/json\" \
         data-target=\"react-app.embeddedData\">{\"payload\":{\"tree\":{}}}</script></head></html>",
    );
    let site = remote(
        &[
            (
                "https://github.com/o/r/tree/main/pkg",
                page(&[("file", "a.txt", "pkg/a.txt"), ("directory", "sub", "pkg/sub")]),
            ),
            ("https://github.com/o/r/tree/main/pkg/sub", broken),
        ],
        &[("https://raw.githubusercontent.com/o/r/main/pkg/a.txt", "a")],
    );
    let url = String::from("https://github.com/o/r/tree/main/pkg");
    let run = get_git_subdir(&site, &url, None, false, false);
    assert_eq!(
        run.summary,
        Summary {
            written: 1,
            failure: Some(WalkError::MalformedListingError {
                url: String::from("https://github.com/o/r/tree/main/pkg/sub")
            }),
        }
    );
    assert_eq!(
        run.summary.failure.unwrap().message(),
        "\x1b[91mError:\x1b[0m cannot read the listing of 'https://github.com/o/r/tree/main/pkg/sub'"
    );
}

#[test]
fn a_page_without_a_block_has_no_entries() {
    let site = remote(
        &[(
            "https://github.com/o/r/tree/main/pkg",
            String::from("<html><body>nothing here</body></html>"),
        )],
        &[],
    );
    let url = String::from("https://github.com/o/r/tree/main/pkg");
    let run = get_git_subdir(&site, &url, None, false, false);
    assert_eq!(run.log, vec!["list https://github.com/o/r/tree/main/pkg"]);
    assert_eq!(run.summary, Summary { written: 0, failure: None });
}

#[test]
fn a_file_outside_the_request_is_a_prefix_mismatch() {
    let site = remote(
        &[(
            "https://github.com/o/r/tree/main/pkg/sub",
            page(&[("file", "a.txt", "pkg/sub/a.txt"), ("file", "b.txt", "pkg/other/b.txt")]),
        )],
        &[
            ("https://raw.githubusercontent.com/o/r/main/pkg/sub/a.txt", "a"),
            ("https://raw.githubusercontent.com/o/r/main/pkg/sub/b.txt", "b"),
        ],
    );
    let url = String::from("https://github.com/o/r/tree/main/pkg/sub");
    let run = get_git_subdir(&site, &url, Some(String::from("out")), false, false);
    assert_eq!(run.written, vec![(String::from("out/a.txt"), String::from("a"))]);
    assert_eq!(
        run.summary,
        Summary {
            written: 1,
            failure: Some(WalkError::PrefixMismatch { path: String::from("pkg/other/b.txt") }),
        }
    );
    assert_eq!(
        run.summary.failure.unwrap().message(),
        "\x1b[91mError:\x1b[0m 'pkg/other/b.txt' is not below the requested directory"
    );
    let run = get_git_subdir(&site, &url, Some(String::from("out")), false, true);
    assert_eq!(
        paths(&run),
        vec!["out/sub/a.txt", "out/other/b.txt"]
    );
    assert_eq!(run.summary, Summary { written: 2, failure: None });
}

#[test]
fn running_twice_does_the_same() {
    let url = String::from("https://github.com/o/r/tree/main/top/mid");
    let first = get_git_subdir(&three_levels(), &url, Some(String::from("out")), false, false);
    let second = get_git_subdir(&three_levels(), &url, Some(String::from("out")), false, false);
    assert_eq!(first.log, second.log);
    assert_eq!(first.written, second.written);
    assert_eq!(first.summary, second.summary);
}

#[test]
fn listed_takes_rows_without_a_page() {
    let requested = GitHubUrl::parse("https://github.com/o/r/tree/main/pkg").unwrap();
    let options = TraversalOptions::resolve(&requested, None, false, true).unwrap();
    let request = Walk::start(requested, options);
    let step = request.listed(Some(vec![
        row("file", "a.txt", "pkg/a.txt"),
        row("directory", "sub", "pkg/sub"),
    ]));
    let file = match step {
        Step::FetchFile(file) => file,
        other => panic!("{:?}", other),
    };
    assert_eq!(file.raw_url, "https://raw.githubusercontent.com/o/r/main/pkg/a.txt");
    assert_eq!(file.relative_path, vec![String::from("a.txt")]);
    assert_eq!(file.walk.pending.len(), 1);
    let listing = match file.written() {
        Step::FetchListing(listing) => listing,
        other => panic!("{:?}", other),
    };
    assert_eq!(listing.url(), "https://github.com/o/r/tree/main/pkg/sub");
    assert_eq!(listing.walk.written, 1);
    assert!(listing.walk.pending.is_empty());
    match listing.listed(None) {
        Step::Finished(summary) => assert_eq!(
            summary,
            Summary {
                written: 1,
                failure: Some(WalkError::MalformedListingError {
                    url: String::from("https://github.com/o/r/tree/main/pkg/sub")
                }),
            }
        ),
        other => panic!("{:?}", other),
    }
}

#[test]
fn the_count_stays_at_its_largest_value() {
    let requested = GitHubUrl::parse("https://github.com/o/r/tree/main/pkg").unwrap();
    let options = TraversalOptions::resolve(&requested, None, false, true).unwrap();
    let mut request = Walk::start(requested, options);
    request.walk.written = u64::MAX - 1;
    let step = request.listed(Some(vec![
        row("file", "a.txt", "pkg/a.txt"),
        row("file", "b.txt", "pkg/b.txt"),
    ]));
    let first = match step {
        Step::FetchFile(file) => file,
        other => panic!("{:?}", other),
    };
    let second = match first.written() {
        Step::FetchFile(file) => file,
        other => panic!("{:?}", other),
    };
    assert_eq!(second.walk.written, u64::MAX);
    match second.written() {
        Step::Finished(summary) => {
            assert_eq!(summary, Summary { written: u64::MAX, failure: None })
        }
        other => panic!("{:?}", other),
    }
}

#[test]
fn an_output_directory_that_cannot_be_made_ends_the_traversal() {
    let requested = GitHubUrl::parse("https://github.com/o/r/tree/main/pkg").unwrap();
    let options = TraversalOptions::resolve(&requested, None, false, true).unwrap();
    match Walk::start(requested, options).write_failed() {
        Step::Finished(summary) => {
            assert_eq!(
                summary,
                Summary { written: 0, failure: Some(WalkError::IoError { place: Vec::new() }) }
            );
            assert_eq!(
                summary.failure.unwrap().message(),
                "\x1b[91mError:\x1b[0m cannot make the output directory"
            );
        }
        other => panic!("{:?}", other),
    }
}

#[test]
fn every_link_and_every_file_is_met_once() {
    let site = remote(
        &[
            (
                "https://github.com/o/r/tree/main/top",
                page(&[
                    ("symlink_file", "l1", "top/l1"),
                    ("directory", "a", "top/a"),
                    ("file", "f1", "top/f1"),
                    ("symlink_directory", "l2", "top/l2"),
                ]),
            ),
            (
                "https://github.com/o/r/tree/main/top/a",
                page(&[
                    ("file", "f2", "top/a/f2"),
                    ("symlink_file", "l3", "top/a/l3"),
                    ("directory", "b", "top/a/b"),
                ]),
            ),
            (
                "https://github.com/o/r/tree/main/top/a/b",
                page(&[("symlink_directory", "l4", "top/a/b/l4"), ("file", "f3", "top/a/b/f3")]),
            ),
        ],
        &[
            ("https://raw.githubusercontent.com/o/r/main/top/f1", "1"),
            ("https://raw.githubusercontent.com/o/r/main/top/a/f2", "2"),
            ("https://raw.githubusercontent.com/o/r/main/top/a/b/f3", "3"),
        ],
    );
    let url = String::from("https://github.com/o/r/tree/main/top");
    let run = get_git_subdir(&site, &url, Some(String::from("out")), false, false);
    assert_eq!(
        run.log,
        vec![
            "list https://github.com/o/r/tree/main/top",
            "skip top/l1",
            "list https://github.com/o/r/tree/main/top/a",
            "file https://raw.githubusercontent.com/o/r/main/top/a/f2",
            "skip top/a/l3",
            "list https://github.com/o/r/tree/main/top/a/b",
            "skip top/a/b/l4",
            "file https://raw.githubusercontent.com/o/r/main/top/a/b/f3",
            "file https://raw.githubusercontent.com/o/r/main/top/f1",
            "skip top/l2",
        ]
    );
    assert_eq!(paths(&run), vec!["out/a/f2", "out/a/b/f3", "out/f1"]);
    assert_eq!(run.notices.len(), 4);
    assert_eq!(run.summary, Summary { written: 3, failure: None });

    let run = get_git_subdir(&site, &url, Some(String::from("out")), true, true);
    assert_eq!(
        run.log,
        vec![
            "list https://github.com/o/r/tree/main/top",
            "skip top/l1",
            "file https://raw.githubusercontent.com/o/r/main/top/f1",
            "skip top/l2",
        ]
    );
    assert_eq!(paths(&run), vec!["out/f1"]);
    assert_eq!(run.notices.len(), 2);
    assert_eq!(run.summary, Summary { written: 1, failure: None });
}
