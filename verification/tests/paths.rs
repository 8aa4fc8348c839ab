use robopages::book::paths::{
    accepts, get_categories, get_file_stem, get_parent_dir, get_relative, is_hidden_path,
};
use robopages::book::runtime::ExecutionContext;
use robopages::book::{select_candidates, Book, Function, Page};
use robopages::strmap::StrMap;

#[test]
fn file_stems() {
    assert_eq!(get_file_stem("/a/b/page.yml"), "page");
    assert_eq!(get_file_stem("page.yml"), "page");
    assert_eq!(get_file_stem("/a/b.c/page"), "page");
    assert_eq!(get_file_stem("/a/my.page.yml"), "my.page");
    assert_eq!(get_file_stem("/a/.hidden"), ".hidden");
    assert_eq!(get_file_stem("/a/.hidden.yml"), ".hidden");
    assert_eq!(get_file_stem("/a/page."), "page");
    assert_eq!(get_file_stem("/a/"), "");
    assert_eq!(get_file_stem(""), "");
    for path in ["/a/b/page.yml", "x.tar.gz", "/a/.hidden", "/a/.h.yml", "noext", "/p/q."] {
        let expected = std::path::Path::new(path)
            .file_stem()
            .unwrap()
            .to_str()
            .unwrap();
        assert_eq!(get_file_stem(path), expected, "{:?}", path);
    }
}

#[test]
fn parent_directories() {
    assert_eq!(get_parent_dir("/a/b/page.yml"), "/a/b");
    assert_eq!(get_parent_dir("/page.yml"), "/");
    assert_eq!(get_parent_dir("page.yml"), "");
    assert_eq!(get_parent_dir("a/page.yml"), "a");
    assert_eq!(get_parent_dir(""), "");
    for path in ["/a/b/page.yml", "/page.yml", "page.yml", "a/b"] {
        let expected = std::path::Path::new(path)
            .parent()
            .unwrap()
            .to_str()
            .unwrap();
        assert_eq!(get_parent_dir(path), expected, "{:?}", path);
    }
}

#[test]
fn relative_paths() {
    assert_eq!(get_relative("/root", "/root/a/b.yml"), Some("a/b.yml".to_string()));
    assert_eq!(get_relative("/root", "/root"), Some("".to_string()));
    assert_eq!(get_relative("/root/p.yml", "/root/p.yml"), Some("".to_string()));
    assert_eq!(get_relative("/", "/a.yml"), Some("a.yml".to_string()));
    assert_eq!(get_relative("/root", "/rootless/a.yml"), None);
    assert_eq!(get_relative("/root", "/other/a.yml"), None);
    assert_eq!(get_relative("/root/long", "/root"), None);
}

#[test]
fn hidden_segments() {
    assert!(is_hidden_path(".hidden/page2.yml"));
    assert!(is_hidden_path("a/.git/b/p.yml"));
    assert!(is_hidden_path("a/.p.yml"));
    assert!(is_hidden_path("..."));
    assert!(is_hidden_path("a/..b"));
    assert!(!is_hidden_path("visible/page1.yml"));
    assert!(!is_hidden_path("./page.yml"));
    assert!(!is_hidden_path("a/./b/../p.yml"));
    assert!(!is_hidden_path("."));
    assert!(!is_hidden_path(".."));
    assert!(!is_hidden_path(""));
    assert!(!is_hidden_path("a.b/c.d.yml"));
}

#[test]
fn categories_from_place() {
    assert_eq!(get_categories("a/b/page.yml"), vec!["a", "b"]);
    assert_eq!(get_categories("a//b/page.yml"), vec!["a", "b"]);
    assert!(get_categories("page.yml").is_empty());
    assert!(get_categories("").is_empty());
    assert_eq!(get_categories("cyber/offensive/nmap.yml"), vec!["cyber", "offensive"]);
}

#[test]
fn candidates() {
    // the root itself may be hidden: only what lies below it counts
    assert!(accepts("/home/u/.robopages", "/home/u/.robopages/a/p.yml", None));
    assert!(!accepts("/home/u/.robopages", "/home/u/.robopages/.git/p.yml", None));
    assert!(accepts("/r", "/r/a/p.yml", Some("a/p")));
    assert!(!accepts("/r", "/r/a/p.yml", Some("b/p")));
    assert!(accepts("/r/p.yml", "/r/p.yml", None));
    // the filter is looked for in the whole path
    assert!(accepts("/root", "/root/a.yml", Some("oot/")));
    // a file outside the root is not judged by its segments
    assert!(accepts("/r", "/elsewhere/.x/p.yml", None));

    let found: Vec<String> = [
        "/r/visible/page1.yml",
        "/r/.hidden/page2.yml",
        "/r/z.yml",
        "/r/visible/.also/page3.yml",
        "/r/visible/page0.yml",
    ]
    .iter()
    .map(|s| s.to_string())
    .collect();
    assert_eq!(
        select_candidates("/r", &found, None),
        vec!["/r/visible/page1.yml", "/r/z.yml", "/r/visible/page0.yml"]
    );
    assert_eq!(
        select_candidates("/r", &found, Some("page")),
        vec!["/r/visible/page1.yml", "/r/visible/page0.yml"]
    );
    assert!(select_candidates("/r", &found, Some("nothing")).is_empty());
    assert!(select_candidates("/r", &vec![], None).is_empty());
}

#[test]
fn test_book_skips_hidden_directories() {
    let function = |description: &str| Function {
        description: description.to_string(),
        parameters: StrMap::new(),
        execution: ExecutionContext::CommandLine(vec!["echo".to_string(), "test".to_string()]),
        container: None,
    };
    let page = |description: &str, function_name: &str| {
        let mut functions = StrMap::new();
        functions.insert(function_name.to_string(), function("A function"));
        Page {
            name: "".to_string(),
            description: Some(description.to_string()),
            categories: vec!["test".to_string()],
            functions,
        }
    };
    let base_path = "/tmp/robopage-test-x";
    let found = vec![
        format!("{}/{}", base_path, "visible/page1.yml"),
        format!("{}/{}", base_path, ".hidden/page2.yml"),
    ];
    let mut pages = StrMap::new();
    for path in select_candidates(base_path, &found, None) {
        if path.ends_with("page1.yml") {
            pages.insert(path, page("Visible page", "function1"));
        } else {
            pages.insert(path, page("Hidden page", "function2"));
        }
    }

    let result = Book::from_path(base_path, pages, "linux").unwrap();

    // Should only find the page from the visible directory
    assert_eq!(result.size(), 1);
    assert!(result.get_function("function1").is_ok());
    assert!(result.get_function("function2").is_err());
}

#[test]
fn preprocessing_puts_the_directory_in() {
    assert_eq!(
        Page::preprocess("/a/b/page.yml", "path: ${cwd}/Dockerfile\nother: ${cwd}${cwd} ${cw}"),
        "path: /a/b/Dockerfile\nother: /a/b/a/b ${cw}"
    );
    assert_eq!(Page::preprocess("/a/b/page.yml", ""), "");
    assert_eq!(Page::preprocess("/p.yml", "${cwd}"), "/");
    assert_eq!(Page::preprocess("/a/p.yml", "$${cwd}}${cwd"), "$/a}${cwd");
}
