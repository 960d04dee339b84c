use fitgirl_ddl::errors::{ExtractError, ScrapeError};
use fitgirl_ddl::extract::{ddl_filename, ddl_from_response, DDL};
use fitgirl_ddl::groups::{collect_groups, group_name_of, is_preselected_group};
use fitgirl_ddl::output::aria2_input;
use fitgirl_ddl::input::split_game_urls;
use fitgirl_ddl::pipeline::{
    counts_as_progress, ExportRun, ExtractOutcome, ExtractionInfo, ScrapeOutcome,
};
use fitgirl_ddl::scrape::{game_info_from_response, GameInfo};

fn ddl(filename: &str, link: &str) -> DDL {
    DDL { filename: filename.to_string(), direct_link: link.to_string() }
}

fn game(path_part: &str, links: usize) -> GameInfo {
    GameInfo {
        path_part: path_part.to_string(),
        fuckingfast_links: (0..links).map(|i| format!("https://fuckingfast.co/{i}#f{i}")).collect(),
    }
}

fn scraped(url: &str, g: Result<GameInfo, ScrapeError>) -> ScrapeOutcome {
    (url.to_string(), g)
}

fn outcome(url: &str, r: Result<DDL, ExtractError>) -> ExtractOutcome {
    (url.to_string(), r)
}

/// The outcome of an intermediary link whose page has `body`.
fn simulated(url: &str, body: &str) -> ExtractOutcome {
    let result = ddl_filename(url).and_then(|name| ddl_from_response(name, body));
    (url.to_string(), result)
}

fn download_page(link: &str) -> String {
    format!(r#"<html><body><div class="mx-auto"><script>window.open("{link}")</script></div></body></html>"#)
}

#[test]
fn aria2_blocks_sorted_by_filename() {
    let text = aria2_input(vec![ddl("b.zip.001", "https://dl/b"), ddl("a.zip.001", "https://dl/a")]);
    assert_eq!(
        text,
        "https://dl/a\n    out=a.zip.001\n    continue=true\nhttps://dl/b\n    out=b.zip.001\n    continue=true\n"
    );
    assert_eq!(aria2_input(vec![]), "");
}

#[test]
fn aria2_text_is_stable() {
    let links = vec![ddl("c", "3"), ddl("a", "1"), ddl("B", "2"), ddl("ab", "4")];
    let first = aria2_input(links.clone());
    let second = aria2_input(links.clone());
    assert_eq!(first, second);
    let mut reordered = links.clone();
    reordered.reverse();
    assert_eq!(aria2_input(reordered), first);
    // Byte order: upper case before lower case, a prefix before its extensions.
    let order: Vec<&str> = first.lines().filter_map(|l| l.strip_prefix("    out=")).collect();
    assert_eq!(order, vec!["B", "a", "ab", "c"]);
}

#[test]
fn aria2_equal_filenames_keep_their_order() {
    let text = aria2_input(vec![ddl("x", "first"), ddl("a", "0"), ddl("x", "second")]);
    let links: Vec<&str> = text.lines().filter(|l| !l.starts_with("    ")).collect();
    assert_eq!(links, vec!["0", "first", "second"]);
}

#[test]
fn run_stops_on_rate_limit() {
    let mut run = ExportRun::new(
        3,
        vec![scraped("https://site/g1/", Ok(game("g1", 3))), scraped("https://site/g2/", Ok(game("g2", 1)))],
    );
    let job = run.take_next_game().unwrap();
    assert_eq!(job.path_part, "g1");
    let result = run.complete_game(vec![
        simulated("https://fuckingfast.co/1#a", &download_page("https://dl/a")),
        simulated("https://fuckingfast.co/2#b", "<p>Too many requests: rate limit reached</p>"),
        simulated("https://fuckingfast.co/3#c", "File Not Found Or Deleted"),
    ]);
    assert_eq!(result.unwrap_err(), ExtractError::RateLimited);
    assert!(run.take_next_game().is_none());
    assert_eq!(run.finish().unwrap_err(), ExtractError::RateLimited);
}

#[test]
fn deleted_file_is_reported_missing() {
    let mut run = ExportRun::new(2, vec![scraped("https://site/g/", Ok(game("g", 2)))]);
    run.take_next_game().unwrap();
    let file = run
        .complete_game(vec![
            simulated("https://fuckingfast.co/x#gone.rar", "<h1>File Not Found Or Deleted</h1>"),
            simulated("https://fuckingfast.co/y#ok.rar", &download_page("https://dl/ok")),
        ])
        .unwrap();
    assert_eq!(file.file_name, "g.txt");
    assert_eq!(file.contents, "https://dl/ok\n    out=ok.rar\n    continue=true\n");
    assert!(run.take_next_game().is_none());
    let info = run.finish().unwrap();
    assert_eq!(info.missing_files, vec!["gone.rar"]);
    assert_eq!(info.saved_files, vec!["g.txt"]);
    assert!(info.scrape_errors.is_empty());
}

#[test]
fn two_games_one_fails_to_scrape() {
    let mut run = ExportRun::new(
        2,
        vec![
            scraped("https://site/game-a/", Ok(game("game-a", 3))),
            scraped(
                "https://site/game-b/",
                game_info_from_response("game-b".to_string(), 200, "<html><body><p>malformed"),
            ),
        ],
    );
    assert_eq!(run.total_links(), 3);
    let job = run.take_next_game().unwrap();
    assert_eq!(job.path_part, "game-a");
    assert_eq!(job.workers, 2);
    assert_eq!(job.links.len(), 3);
    let file = run
        .complete_game(vec![
            simulated("https://fuckingfast.co/1#b.zip.001", &download_page("https://dl/b")),
            simulated("https://fuckingfast.co/2#c.zip.001", "File Not Found Or Deleted"),
            simulated("https://fuckingfast.co/3#a.zip.001", &download_page("https://dl/a")),
        ])
        .unwrap();
    assert_eq!(file.file_name, "game-a.txt");
    assert_eq!(
        file.contents,
        "https://dl/a\n    out=a.zip.001\n    continue=true\nhttps://dl/b\n    out=b.zip.001\n    continue=true\n"
    );
    assert!(run.take_next_game().is_none());
    let info = run.finish().unwrap();
    assert_eq!(info.saved_files, vec!["game-a.txt"]);
    assert_eq!(info.missing_files, vec!["c.zip.001"]);
    assert_eq!(info.scrape_errors, vec!["https://site/game-b/: fuckingfast.co source was missing"]);
}

#[test]
fn large_game_is_extracted_serially() {
    let mut run = ExportRun::new(
        8,
        vec![
            scraped("u1", Ok(game("big", 250))),
            scraped("u2", Ok(game("edge", 200))),
            scraped("u3", Ok(game("small", 199))),
        ],
    );
    assert_eq!(run.total_links(), 649);
    let job = run.take_next_game().unwrap();
    assert_eq!((job.path_part.as_str(), job.links.len(), job.workers), ("big", 250, 1));
    run.complete_game(vec![]).unwrap();
    let job = run.take_next_game().unwrap();
    assert_eq!((job.path_part.as_str(), job.workers), ("edge", 1));
    run.complete_game(vec![]).unwrap();
    let job = run.take_next_game().unwrap();
    assert_eq!((job.path_part.as_str(), job.workers), ("small", 8));
    let file = run.complete_game(vec![]).unwrap();
    assert_eq!(file.contents, "");
    assert_eq!(run.finish().unwrap().saved_files, vec!["big.txt", "edge.txt", "small.txt"]);
}

#[test]
fn other_failures_are_counted_apart() {
    let mut run = ExportRun::new(1, vec![scraped("u", Ok(game("g", 3)))]);
    assert!(!run.has_current_game());
    run.take_next_game().unwrap();
    assert!(run.has_current_game());
    run.complete_game(vec![
        outcome("https://fuckingfast.co/x", Err(ExtractError::DDLMissing)),
        outcome("https://fuckingfast.co/y", Err(ExtractError::RequestError("timeout".to_string()))),
        outcome("https://fuckingfast.co/z", Ok(ddl("z", "1"))),
    ])
    .unwrap();
    assert!(!run.has_current_game());
    let info = run.finish().unwrap();
    assert_eq!(
        info.extract_errors,
        vec![
            "https://fuckingfast.co/x: direct download link was not found",
            "https://fuckingfast.co/y: request: timeout"
        ]
    );
    assert!(info.missing_files.is_empty());
}

#[test]
fn empty_run_finishes_at_once() {
    let mut run = ExportRun::new(3, vec![]);
    assert_eq!(run.total_links(), 0);
    assert!(run.take_next_game().is_none());
    let info = run.finish().unwrap();
    assert!(info.saved_files.is_empty());
}

#[test]
fn progress_counts_all_but_rate_limit() {
    assert!(counts_as_progress(&Ok(ddl("a", "b"))));
    assert!(counts_as_progress(&Err(ExtractError::FileNotFound("a".to_string()))));
    assert!(counts_as_progress(&Err(ExtractError::DDLMissing)));
    assert!(!counts_as_progress(&Err(ExtractError::RateLimited)));
}

#[test]
fn files_are_grouped_by_archive() {
    assert_eq!(group_name_of("game.part01.rar"), "game");
    assert_eq!(group_name_of("setup.exe"), "setup.exe");
    assert_eq!(group_name_of("a.part1.part2"), "a");
    let groups = collect_groups(vec![
        ddl("fg.part2.rar", "2"),
        ddl("fg-optional-music.part1.rar", "m"),
        ddl("fg.part1.rar", "1"),
        ddl("setup.exe", "s"),
    ]);
    assert_eq!(groups.len(), 3);
    assert_eq!(groups.get("fg").unwrap(), &vec![ddl("fg.part2.rar", "2"), ddl("fg.part1.rar", "1")]);
    assert_eq!(groups.get("fg-optional-music").unwrap(), &vec![ddl("fg-optional-music.part1.rar", "m")]);
    assert_eq!(groups.get("setup.exe").unwrap(), &vec![ddl("setup.exe", "s")]);
}

#[test]
fn typed_urls_are_split() {
    assert_eq!(
        split_game_urls("  https://a/x/\n\thttps://b/y/  https://c/z/\n"),
        vec!["https://a/x/", "https://b/y/", "https://c/z/"]
    );
    assert_eq!(split_game_urls("one"), vec!["one"]);
    assert!(split_game_urls("").is_empty());
    assert!(split_game_urls(" \n\t ").is_empty());
}

#[test]
fn summary_lists_what_went_wrong() {
    let info = ExtractionInfo {
        saved_files: vec!["g.txt".to_string()],
        missing_files: vec!["a.rar".to_string(), "b.rar".to_string()],
        scrape_errors: vec!["https://site/x/: join error".to_string()],
        extract_errors: vec![],
    };
    assert_eq!(
        info.summary_message(),
        "File Not Found Or Deleted:\na.rar\nb.rar\nFailed:\nhttps://site/x/: join error"
    );
    let clean = ExtractionInfo {
        saved_files: vec![],
        missing_files: vec![],
        scrape_errors: vec![],
        extract_errors: vec!["u: rate limited".to_string()],
    };
    assert_eq!(clean.summary_message(), "Not resolved:\nu: rate limited");
    let none = ExtractionInfo { saved_files: vec![], missing_files: vec![], scrape_errors: vec![], extract_errors: vec![] };
    assert_eq!(none.summary_message(), "");
}

#[test]
fn groups_naming_site_or_fixes_are_preselected() {
    assert!(is_preselected_group("fg-01-fitgirl-repacks.site-setup"));
    assert!(is_preselected_group("game-FIXED"));
    assert!(!is_preselected_group("fg-optional-bonus"));
    assert!(!is_preselected_group("fixed"));
}
