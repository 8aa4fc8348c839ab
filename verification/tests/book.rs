use robopages::book::flavors::openai;
use robopages::book::runtime::ExecutionContext;
use robopages::book::{Book, Function, Page};
use robopages::failure::Failure;
use robopages::strmap::StrMap;

fn echo_function(description: &str) -> Function {
    Function {
        description: description.to_string(),
        parameters: StrMap::new(),
        execution: ExecutionContext::CommandLine(vec!["echo".to_string(), "test".to_string()]),
        container: None,
    }
}

fn page_with(name: &str, functions: &[&str]) -> Page {
    let mut map = StrMap::new();
    for f in functions {
        map.insert(f.to_string(), echo_function(f));
    }
    Page {
        name: name.to_string(),
        description: None,
        categories: vec!["test".to_string()],
        functions: map,
    }
}

fn create_test_book() -> Book {
    let mut pages = StrMap::new();
    let mut page = Page {
        name: "Test Page".to_string(),
        description: Some("A test page".to_string()),
        categories: vec!["test".to_string()],
        functions: StrMap::new(),
    };
    page.functions
        .insert("test_function".to_string(), echo_function("A test function"));
    pages.insert("test_page".to_string(), page);
    Book::from_path("", pages, "linux").unwrap()
}

#[test]
fn test_book_size() {
    let book = create_test_book();
    assert_eq!(book.size(), 1);
}

#[test]
fn test_get_existing_function() {
    let book = create_test_book();
    let result = book.get_function("test_function");
    assert!(result.is_ok());
    let function_ref = result.unwrap();
    assert_eq!(function_ref.name, "test_function");
    assert_eq!(function_ref.path, "test_page");
}

#[test]
fn test_get_non_existing_function() {
    let book = create_test_book();
    let result = book.get_function("non_existing_function");
    assert!(result.is_err());
    assert_eq!(
        result.unwrap_err(),
        Failure::UnknownFunction {
            name: "non_existing_function".to_string()
        }
    );
}

#[test]
fn test_as_tools_without_filter() {
    let book = create_test_book();
    let tools = book.as_tools::<openai::Tool>(None);
    assert_eq!(tools.len(), 1);
}

#[test]
fn test_as_tools_with_matching_filter() {
    let book = create_test_book();
    let tools = book.as_tools::<openai::Tool>(Some("test_page".to_string()));
    assert_eq!(tools.len(), 1);
}

#[test]
fn test_as_tools_with_non_matching_filter() {
    let book = create_test_book();
    let tools = book.as_tools::<openai::Tool>(Some("non_existing_page".to_string()));
    assert_eq!(tools.len(), 0);
}

#[test]
fn test_book_creation_with_duplicate_function_names() {
    let mut pages = StrMap::new();
    let mut first = page_with("", &["duplicate_function"]);
    first.description = Some("First page".to_string());
    let mut second = page_with("", &["duplicate_function"]);
    second.description = Some("Second page".to_string());
    pages.insert("/base/page1.yml".to_string(), first);
    pages.insert("/base/page2.yml".to_string(), second);

    let result = Book::from_path("/base", pages, "linux").unwrap();

    assert_eq!(result.size(), 2);
    assert!(result.get_function("duplicate_function").is_ok());
    assert!(result.get_function("page2_duplicate_function").is_ok());
    assert_eq!(
        result.get_function("duplicate_function").unwrap().path,
        "/base/page1.yml"
    );
    assert_eq!(
        result.get_function("page2_duplicate_function").unwrap().path,
        "/base/page2.yml"
    );
}

#[test]
fn lookup_returns_first_page_in_path_order() {
    let mut pages = StrMap::new();
    pages.insert("/r/b.yml".to_string(), page_with("", &["run"]));
    pages.insert("/r/a.yml".to_string(), page_with("", &["run"]));
    let book = Book::from_path("/r", pages, "linux").unwrap();
    let run = book.get_function("run").unwrap();
    assert_eq!(run.path, "/r/a.yml");
    assert_eq!(run.page.name, "a");
    let b_run = book.get_function("b_run").unwrap();
    assert_eq!(b_run.path, "/r/b.yml");
    assert_eq!(b_run.page.name, "b");
    assert!(book.get_function("a_run").is_err());
}

#[test]
fn second_collision_fails_loading() {
    let mut pages = StrMap::new();
    pages.insert("/r/a.yml".to_string(), page_with("a", &["b_run", "run"]));
    pages.insert("/r/b.yml".to_string(), page_with("b", &["run"]));
    let result = Book::from_path("/r", pages, "linux");
    assert_eq!(
        result.unwrap_err(),
        Failure::DuplicateFunction {
            name: "run".to_string(),
            path: "/r/b.yml".to_string()
        }
    );
}

#[test]
fn renamed_function_keeps_later_pages_unique() {
    let mut pages = StrMap::new();
    pages.insert("/r/a.yml".to_string(), page_with("a", &["run"]));
    pages.insert("/r/b.yml".to_string(), page_with("b", &["run"]));
    pages.insert("/r/c.yml".to_string(), page_with("c", &["b_run"]));
    let book = Book::from_path("/r", pages, "linux").unwrap();
    assert_eq!(book.get_function("run").unwrap().path, "/r/a.yml");
    assert_eq!(book.get_function("b_run").unwrap().path, "/r/b.yml");
    assert_eq!(book.get_function("c_b_run").unwrap().path, "/r/c.yml");
    let mut names = Vec::new();
    for i in 0..book.pages().len() {
        let page = book.pages().value_at(i);
        for j in 0..page.functions.len() {
            names.push(page.functions.key_at(j).to_string());
        }
    }
    let mut unique = names.clone();
    unique.sort();
    unique.dedup();
    assert_eq!(unique.len(), names.len());
}

#[test]
fn no_pages_is_a_failure() {
    let result = Book::from_path("/nowhere", StrMap::new(), "linux");
    assert_eq!(
        result.unwrap_err(),
        Failure::NoPages {
            path: "/nowhere".to_string()
        }
    );
}

#[test]
fn defaults_for_name_and_categories() {
    let mut pages = StrMap::new();
    let mut page = page_with("", &["f"]);
    page.categories = vec![];
    pages.insert("/root/cat/sub/my.page.yml".to_string(), page);
    let mut top = page_with("given", &["g"]);
    top.categories = vec![];
    pages.insert("/root/top.yml".to_string(), top);
    let mut kept = page_with("kept", &["h"]);
    kept.categories = vec!["x".to_string(), "y".to_string()];
    pages.insert("/root/z/kept.yml".to_string(), kept);
    let book = Book::from_path("/root", pages, "linux").unwrap();
    let f = book.get_function("f").unwrap();
    assert_eq!(f.page.name, "my.page");
    assert_eq!(f.page.categories, vec!["cat", "sub"]);
    let g = book.get_function("g").unwrap();
    assert_eq!(g.page.name, "given");
    assert!(g.page.categories.is_empty());
    let h = book.get_function("h").unwrap();
    assert_eq!(h.page.categories, vec!["x", "y"]);
}

#[test]
fn page_outside_root_without_categories_fails() {
    let mut pages = StrMap::new();
    let mut page = page_with("", &["f"]);
    page.categories = vec![];
    pages.insert("/elsewhere/p.yml".to_string(), page);
    assert_eq!(
        Book::from_path("/root", pages, "linux").unwrap_err(),
        Failure::BadPagePath {
            path: "/elsewhere/p.yml".to_string()
        }
    );
}

#[test]
fn tools_follow_path_order_and_filter() {
    let mut pages = StrMap::new();
    pages.insert("/r/b/two.yml".to_string(), page_with("two", &["beta", "alpha"]));
    pages.insert("/r/a/one.yml".to_string(), page_with("one", &["gamma"]));
    let book = Book::from_path("/r", pages, "linux").unwrap();
    let all = book.as_tools::<openai::Tool>(None);
    let names: Vec<&str> = all.iter().map(|t| t.function.name.as_str()).collect();
    assert_eq!(names, vec!["gamma", "alpha", "beta"]);
    let some = book.as_tools::<openai::Tool>(Some("/b/".to_string()));
    let names: Vec<&str> = some.iter().map(|t| t.function.name.as_str()).collect();
    assert_eq!(names, vec!["alpha", "beta"]);
}

#[test]
fn functions_without_a_command_line_for_this_system_fail_loading() {
    let mut platforms = StrMap::new();
    platforms.insert("macos".to_string(), vec!["echo".to_string()]);
    let mut functions = StrMap::new();
    functions.insert(
        "only_mac".to_string(),
        Function {
            description: "".to_string(),
            parameters: StrMap::new(),
            execution: ExecutionContext::PlatformSpecific(platforms),
            container: None,
        },
    );
    let page = |functions| Page {
        name: "p".to_string(),
        description: None,
        categories: vec!["c".to_string()],
        functions,
    };
    let mut pages = StrMap::new();
    pages.insert("/r/p.yml".to_string(), page(functions));
    assert_eq!(
        Book::from_path("/r", pages, "linux").unwrap_err(),
        Failure::PlatformUnsupported {
            os: "linux".to_string()
        }
    );

    let mut functions = StrMap::new();
    functions.insert(
        "empty".to_string(),
        Function {
            description: "".to_string(),
            parameters: StrMap::new(),
            execution: ExecutionContext::CommandLine(vec![]),
            container: None,
        },
    );
    let mut pages = StrMap::new();
    pages.insert("/r/p.yml".to_string(), page(functions));
    assert_eq!(
        Book::from_path("/r", pages, "linux").unwrap_err(),
        Failure::EmptyArgv
    );

    let mut platforms = StrMap::new();
    platforms.insert("macos".to_string(), vec!["echo".to_string()]);
    let mut functions = StrMap::new();
    functions.insert(
        "only_mac".to_string(),
        Function {
            description: "".to_string(),
            parameters: StrMap::new(),
            execution: ExecutionContext::PlatformSpecific(platforms),
            container: None,
        },
    );
    let mut pages = StrMap::new();
    pages.insert("/r/p.yml".to_string(), page(functions));
    assert_eq!(Book::from_path("/r", pages, "macos").unwrap().size(), 1);
}

#[test]
fn a_page_without_any_name_fails_loading() {
    let mut pages = StrMap::new();
    let mut page = page_with("", &["f"]);
    page.categories = vec!["c".to_string()];
    // no name of its own, and a path that gives none
    pages.insert("/r/".to_string(), page);
    assert_eq!(
        Book::from_path("/r", pages, "linux").unwrap_err(),
        Failure::BadPagePath {
            path: "/r/".to_string()
        }
    );
}
