use vstd::prelude::*;

use std::collections::VecDeque;

use crate::errors::{extract_error_text, is_scrape_error_text, ExtractError, ScrapeError};
use crate::extract::DDL;
use crate::output::{aria2_input, aria2_text, sort_by_name};
use crate::scrape::GameInfo;
use crate::text::{concat, strings_view};

verus! {

/// A game URL with what scraping it gave.
pub type ScrapeOutcome = (String, Result<GameInfo, ScrapeError>);

/// An intermediary URL with what extracting it gave.
pub type ExtractOutcome = (String, Result<DDL, ExtractError>);

/// Games with this many intermediary links or more are extracted one link at a time.
pub const SERIAL_LINK_COUNT: usize = 200;

/// What a finished run reports.
#[derive(Debug)]
pub struct ExtractionInfo {
    /// The output files written, in the order the games were processed.
    pub saved_files: Vec<String>,
    /// The files that the host reported as deleted.
    pub missing_files: Vec<String>,
    /// One `"<game url>: <reason>"` line per game that could not be scraped.
    pub scrape_errors: Vec<String>,
    /// One `"<intermediary url>: <reason>"` line per link that failed for any other
    /// reason than rate limiting or deletion.
    pub extract_errors: Vec<String>,
}

/// The extraction of one game: its links, and how many may be fetched at once.
#[derive(Debug)]
pub struct GameJob {
    pub path_part: String,
    pub links: Vec<String>,
    pub workers: usize,
}

/// A file to write, for the download manager.
#[derive(Debug)]
pub struct OutputFile {
    pub file_name: String,
    pub contents: String,
}

/// The games that scraped, in order.
pub open spec fn scraped_games(s: Seq<ScrapeOutcome>) -> Seq<GameInfo>
    decreases s.len(),
{
    if s.len() == 0 {
        seq![]
    } else {
        let prev = scraped_games(s.drop_last());
        match s.last().1 {
            Ok(g) => prev.push(g),
            Err(_) => prev,
        }
    }
}

/// The games that did not scrape, each with its URL, in order.
pub open spec fn scrape_failures(s: Seq<ScrapeOutcome>) -> Seq<(Seq<char>, ScrapeError)>
    decreases s.len(),
{
    if s.len() == 0 {
        seq![]
    } else {
        let prev = scrape_failures(s.drop_last());
        match s.last().1 {
            Ok(_) => prev,
            Err(e) => prev.push((s.last().0@, e)),
        }
    }
}

/// `line` reports that the game at `url` failed with `e`.
pub open spec fn is_failure_line(line: Seq<char>, url: Seq<char>, e: ScrapeError) -> bool {
    exists|m: Seq<char>| #[trigger] is_scrape_error_text(e, m) && line == url + ": "@ + m
}

/// `lines` report the failures `f`, one line each, in order.
pub open spec fn reports_failures(lines: Seq<Seq<char>>, f: Seq<(Seq<char>, ScrapeError)>) -> bool {
    &&& lines.len() == f.len()
    &&& forall|i: int| 0 <= i < f.len() ==> is_failure_line(#[trigger] lines[i], f[i].0, f[i].1)
}

/// How many intermediary links the games have in all.
pub open spec fn link_count(games: Seq<GameInfo>) -> nat
    decreases games.len(),
{
    if games.len() == 0 {
        0
    } else {
        link_count(games.drop_last()) + games.last().fuckingfast_links@.len()
    }
}

/// `n`, or the largest `usize` when `n` is larger.
pub open spec fn capped(n: nat) -> nat {
    if n <= usize::MAX {
        n
    } else {
        usize::MAX as nat
    }
}

/// How many links of a game with `links` links are fetched at once.
pub open spec fn effective_workers(workers: nat, links: nat) -> nat {
    if links >= SERIAL_LINK_COUNT {
        1
    } else {
        workers
    }
}

/// Some link of the game reported rate limiting.
pub open spec fn rate_limited(o: Seq<ExtractOutcome>) -> bool {
    exists|i: int|
        0 <= i < o.len() && (#[trigger] o[i]).1 == Err::<DDL, ExtractError>(
            ExtractError::RateLimited,
        )
}

/// The links that resolved, in order.
pub open spec fn resolved(o: Seq<ExtractOutcome>) -> Seq<DDL>
    decreases o.len(),
{
    if o.len() == 0 {
        seq![]
    } else {
        let prev = resolved(o.drop_last());
        match o.last().1 {
            Ok(d) => prev.push(d),
            Err(_) => prev,
        }
    }
}

/// The files reported deleted, in order.
pub open spec fn deleted_files(o: Seq<ExtractOutcome>) -> Seq<Seq<char>>
    decreases o.len(),
{
    if o.len() == 0 {
        seq![]
    } else {
        let prev = deleted_files(o.drop_last());
        match o.last().1 {
            Err(ExtractError::FileNotFound(name)) => prev.push(name@),
            _ => prev,
        }
    }
}

/// One line per link that failed otherwise than by rate limiting or deletion, in order.
pub open spec fn failure_lines(o: Seq<ExtractOutcome>) -> Seq<Seq<char>>
    decreases o.len(),
{
    if o.len() == 0 {
        seq![]
    } else {
        let prev = failure_lines(o.drop_last());
        match o.last().1 {
            Ok(_) => prev,
            Err(ExtractError::RateLimited) => prev,
            Err(ExtractError::FileNotFound(_)) => prev,
            Err(e) => prev.push(o.last().0@ + ": "@ + extract_error_text(e)),
        }
    }
}

/// An export run, seen as values.
pub struct RunView {
    pub workers: nat,
    /// The games still to extract, in order.
    pub pending: Seq<GameInfo>,
    /// The identifier of the game being extracted.
    pub current: Option<Seq<char>>,
    pub total_links: nat,
    pub saved_files: Seq<Seq<char>>,
    pub missing_files: Seq<Seq<char>>,
    pub scrape_errors: Seq<Seq<char>>,
    pub extract_errors: Seq<Seq<char>>,
    /// Rate limiting was reported: the run is over.
    pub aborted: bool,
}

impl RunView {
    /// The state once the first pending game is handed out.
    pub open spec fn after_take(self) -> RunView {
        RunView {
            pending: self.pending.drop_first(),
            current: Some(self.pending[0].path_part@),
            ..self
        }
    }

    /// The name of the current game's output file.
    pub open spec fn output_name(self) -> Seq<char> {
        self.current->0 + ".txt"@
    }

    /// The state once the current game reported rate limiting.
    pub open spec fn after_abort(self) -> RunView {
        RunView { current: None, aborted: true, ..self }
    }

    /// The state once the current game's file is written from outcomes `o`.
    pub open spec fn after_write(self, o: Seq<ExtractOutcome>) -> RunView {
        RunView {
            current: None,
            saved_files: self.saved_files.push(self.output_name()),
            missing_files: self.missing_files + deleted_files(o),
            extract_errors: self.extract_errors + failure_lines(o),
            ..self
        }
    }
}

impl ExtractionInfo {
    /// The report holds the files and errors recorded in the run `v`.
    pub open spec fn reports(self, v: RunView) -> bool {
        &&& strings_view(self.saved_files@) == v.saved_files
        &&& strings_view(self.missing_files@) == v.missing_files
        &&& strings_view(self.scrape_errors@) == v.scrape_errors
        &&& strings_view(self.extract_errors@) == v.extract_errors
    }
}

/// The lines, separated by newlines.
pub open spec fn joined_lines(v: Seq<Seq<char>>) -> Seq<char>
    decreases v.len(),
{
    if v.len() == 0 {
        seq![]
    } else if v.len() == 1 {
        v[0]
    } else {
        joined_lines(v.drop_last()) + "\n"@ + v.last()
    }
}

/// A titled section listing `lines`; none when there are no lines.
pub open spec fn section(title: Seq<char>, lines: Seq<Seq<char>>) -> Seq<Seq<char>> {
    if lines.len() > 0 {
        seq![title + joined_lines(lines)]
    } else {
        seq![]
    }
}

/// What a report tells its reader: the deleted files, the games that failed to scrape and
/// the links that failed otherwise, each under its title; empty when all went well.
pub open spec fn summary_text(
    missing: Seq<Seq<char>>,
    scrape_errors: Seq<Seq<char>>,
    extract_errors: Seq<Seq<char>>,
) -> Seq<char> {
    joined_lines(
        section("File Not Found Or Deleted:\n"@, missing) + section("Failed:\n"@, scrape_errors)
            + section("Not resolved:\n"@, extract_errors),
    )
}

/// Joins the lines with newlines.
pub fn join_lines(v: &Vec<String>) -> (r: String)
    ensures
        r@ == joined_lines(strings_view(v@)),
{
    let ghost sv = strings_view(v@);
    let mut out = String::new();
    for i in 0..v.len()
        invariant
            sv == strings_view(v@),
            out@ == joined_lines(sv.take(i as int)),
    {
        assert(sv.take(i + 1).drop_last() =~= sv.take(i as int));
        if i > 0 {
            out.append("\n");
        }
        out.append(v[i].as_str());
        assert(out@ =~= joined_lines(sv.take(i + 1)));
    }
    assert(sv.take(v.len() as int) =~= sv);
    out
}

/// Adds the section `title` over `lines` to `sections`, if there are lines.
fn push_section(sections: &mut Vec<String>, title: &str, lines: &Vec<String>)
    ensures
        strings_view(final(sections)@) == strings_view(old(sections)@) + section(
            title@,
            strings_view(lines@),
        ),
{
    if lines.len() > 0 {
        let body = join_lines(lines);
        sections.push(concat(title, body.as_str()));
        assert(strings_view(sections@) =~= strings_view(old(sections)@) + section(
            title@,
            strings_view(lines@),
        ));
    } else {
        assert(strings_view(sections@) =~= strings_view(old(sections)@) + section(
            title@,
            strings_view(lines@),
        ));
    }
}

impl ExtractionInfo {
    /// A message for the user about what went wrong in the run; empty when nothing did.
    pub fn summary_message(&self) -> (r: String)
        ensures
            r@ == summary_text(
                strings_view(self.missing_files@),
                strings_view(self.scrape_errors@),
                strings_view(self.extract_errors@),
            ),
    {
        let mut sections: Vec<String> = Vec::new();
        push_section(&mut sections, "File Not Found Or Deleted:\n", &self.missing_files);
        push_section(&mut sections, "Failed:\n", &self.scrape_errors);
        push_section(&mut sections, "Not resolved:\n", &self.extract_errors);
        proof {
            assert(strings_view(sections@) =~= section(
                "File Not Found Or Deleted:\n"@,
                strings_view(self.missing_files@),
            ) + section("Failed:\n"@, strings_view(self.scrape_errors@)) + section(
                "Not resolved:\n"@,
                strings_view(self.extract_errors@),
            ));
        }
        join_lines(&sections)
    }
}

/// The extraction stage of an export: it takes the games that were scraped, hands out one
/// game at a time for extraction, and decides from the outcomes of its links what is
/// written and whether the run goes on.
pub struct ExportRun {
    workers: usize,
    pending: VecDeque<GameInfo>,
    current: Option<String>,
    total_links: usize,
    info: ExtractionInfo,
    aborted: bool,
}

impl View for ExportRun {
    type V = RunView;

    closed spec fn view(&self) -> RunView {
        RunView {
            workers: self.workers as nat,
            pending: self.pending@,
            current: match self.current {
                Some(c) => Some(c@),
                None => None,
            },
            total_links: self.total_links as nat,
            saved_files: strings_view(self.info.saved_files@),
            missing_files: strings_view(self.info.missing_files@),
            scrape_errors: strings_view(self.info.scrape_errors@),
            extract_errors: strings_view(self.info.extract_errors@),
            aborted: self.aborted,
        }
    }
}

impl ExportRun {
    /// At least one link of a game may be fetched at a time.
    pub open spec fn wf(&self) -> bool {
        self@.workers >= 1
    }

    /// Starts the extraction stage from the outcomes of scraping.
    ///
    /// Games that scraped are queued in order; each game that did not is reported as
    /// `"<game url>: <reason>"`. The number of links of all queued games is kept as the
    /// upper bound for progress.
    pub fn new(workers: usize, scraped: Vec<ScrapeOutcome>) -> (r: ExportRun)
        requires
            workers >= 1,
        ensures
            r.wf(),
            r@.workers == workers,
            r@.pending == scraped_games(scraped@),
            r@.current is None,
            r@.total_links == capped(link_count(scraped_games(scraped@))),
            r@.saved_files == Seq::<Seq<char>>::empty(),
            r@.missing_files == Seq::<Seq<char>>::empty(),
            reports_failures(r@.scrape_errors, scrape_failures(scraped@)),
            r@.extract_errors == Seq::<Seq<char>>::empty(),
            !r@.aborted,
    {
        let ghost all = scraped@;
        let mut pending: VecDeque<GameInfo> = VecDeque::new();
        let mut scrape_errors: Vec<String> = Vec::new();
        let mut total_links: usize = 0;
        for item in it: scraped.into_iter()
            invariant
                it.seq() == all,
                pending@ == scraped_games(all.take(it.index() as int)),
                reports_failures(
                    strings_view(scrape_errors@),
                    scrape_failures(all.take(it.index() as int)),
                ),
                total_links == capped(link_count(scraped_games(all.take(it.index() as int)))),
        {
            let ghost i = it.index() as int;
            assert(all.take(i + 1).drop_last() =~= all.take(i));
            assert(all.take(i + 1).last() == item);
            let (url, result) = item;
            match result {
                Ok(game) => {
                    proof {
                        let games = scraped_games(all.take(i));
                        assert(games.push(game).drop_last() =~= games);
                        assert(link_count(games.push(game)) == link_count(games)
                            + game.fuckingfast_links@.len());
                    }
                    total_links = total_links.saturating_add(game.fuckingfast_links.len());
                    pending.push_back(game);
                },
                Err(e) => {
                    let m = e.message();
                    let head = concat(url.as_str(), ": ");
                    let line = concat(head.as_str(), m.as_str());
                    let ghost before = strings_view(scrape_errors@);
                    scrape_errors.push(line);
                    proof {
                        let f = scrape_failures(all.take(i + 1));
                        let now = strings_view(scrape_errors@);
                        assert(now =~= before.push(line@));
                        assert(is_failure_line(now[before.len() as int], url@, e));
                        assert forall|k: int| 0 <= k < f.len() implies is_failure_line(
                            #[trigger] now[k],
                            f[k].0,
                            f[k].1,
                        ) by {
                            if k < before.len() {
                                assert(now[k] == before[k]);
                            }
                        }
                    }
                },
            }
        }
        assert(all.take(all.len() as int) =~= all);
        ExportRun {
            workers,
            pending,
            current: None,
            total_links,
            info: ExtractionInfo {
                saved_files: Vec::new(),
                missing_files: Vec::new(),
                scrape_errors,
                extract_errors: Vec::new(),
            },
            aborted: false,
        }
    }

    /// The number of links of all scraped games: the upper bound for progress.
    pub fn total_links(&self) -> (r: usize)
        ensures
            r == self@.total_links,
    {
        self.total_links
    }

    /// Whether a game was handed out and its outcome is still awaited.
    pub fn has_current_game(&self) -> (r: bool)
        ensures
            r == self@.current is Some,
    {
        self.current.is_some()
    }

    /// Hands out the next game for extraction, with the number of its links that may be
    /// fetched at once: one when it has `SERIAL_LINK_COUNT` links or more, else the run's
    /// number of workers. Nothing is handed out once the run is over.
    pub fn take_next_game(&mut self) -> (r: Option<GameJob>)
        requires
            old(self).wf(),
        ensures
            final(self).wf(),
            old(self)@.aborted || old(self)@.pending.len() == 0 ==> r is None && final(self)@
                == old(self)@,
            !old(self)@.aborted && old(self)@.pending.len() > 0 ==> {
                let g = old(self)@.pending[0];
                &&& r matches Some(job) && job.path_part == g.path_part && job.links
                    == g.fuckingfast_links && job.workers == effective_workers(
                    old(self)@.workers,
                    g.fuckingfast_links.len() as nat,
                )
                &&& final(self)@ == old(self)@.after_take()
            },
    {
        if self.aborted {
            return None;
        }
        match self.pending.pop_front() {
            Some(game) => {
                let GameInfo { path_part, fuckingfast_links } = game;
                let workers = if fuckingfast_links.len() >= SERIAL_LINK_COUNT {
                    1
                } else {
                    self.workers
                };
                self.current = Some(path_part.clone());
                proof {
                    assert(self.pending@ =~= old(self)@.pending.drop_first());
                }
                Some(GameJob { path_part, links: fuckingfast_links, workers })
            },
            None => None,
        }
    }

    /// Takes the outcomes of the current game's links.
    ///
    /// If any link reported rate limiting, the run is over and nothing is written for the
    /// game. Otherwise the resolved links become the game's output file, named after its
    /// identifier, the deleted files are added to the missing ones and the other failures
    /// to the extraction errors.
    pub fn complete_game(&mut self, outcomes: Vec<ExtractOutcome>) -> (r: Result<
        OutputFile,
        ExtractError,
    >)
        requires
            old(self).wf(),
            old(self)@.current is Some,
        ensures
            final(self).wf(),
            rate_limited(outcomes@) ==> r == Err::<OutputFile, ExtractError>(
                ExtractError::RateLimited,
            ) && final(self)@ == old(self)@.after_abort(),
            !rate_limited(outcomes@) ==> (r matches Ok(file) && file.file_name@ == old(
                self,
            )@.output_name() && file.contents@ == aria2_text(sort_by_name(resolved(outcomes@)))
                && final(self)@ == old(self)@.after_write(outcomes@)),
    {
        let ghost all = outcomes@;
        let mut ddls: Vec<DDL> = Vec::new();
        let mut missing: Vec<String> = Vec::new();
        let mut failures: Vec<String> = Vec::new();
        let mut limited = false;
        for item in it: outcomes.into_iter()
            invariant
                it.seq() == all,
                ddls@ == resolved(all.take(it.index() as int)),
                strings_view(missing@) == deleted_files(all.take(it.index() as int)),
                strings_view(failures@) == failure_lines(all.take(it.index() as int)),
                limited == rate_limited(all.take(it.index() as int)),
        {
            let ghost i = it.index() as int;
            let ghost pre = all.take(i);
            let ghost post = all.take(i + 1);
            assert(post.drop_last() =~= pre);
            assert(post.last() == item);
            assert(post[i] == item);
            assert forall|k: int| 0 <= k < i implies #[trigger] post[k] == pre[k] by {}
            let ghost was_limited = limited;
            let (url, result) = item;
            match result {
                Ok(d) => {
                    ddls.push(d);
                },
                Err(ExtractError::RateLimited) => {
                    limited = true;
                },
                Err(ExtractError::FileNotFound(name)) => {
                    missing.push(name);
                    assert(strings_view(missing@) =~= deleted_files(post));
                },
                Err(e) => {
                    let m = e.message();
                    let head = concat(url.as_str(), ": ");
                    let line = concat(head.as_str(), m.as_str());
                    failures.push(line);
                    assert(strings_view(failures@) =~= failure_lines(post));
                },
            }
            proof {
                if rate_limited(post) && !was_limited {
                    let k = choose|k: int|
                        0 <= k < post.len() && (#[trigger] post[k]).1 == Err::<DDL, ExtractError>(
                            ExtractError::RateLimited,
                        );
                    assert(k == i);
                }
            }
            assert(strings_view(missing@) =~= deleted_files(post));
            assert(strings_view(failures@) =~= failure_lines(post));
        }
        assert(all.take(all.len() as int) =~= all);
        let name = match &self.current {
            Some(c) => concat(c.as_str(), ".txt"),
            None => String::new(),
        };
        self.current = None;
        if limited {
            self.aborted = true;
            return Err(ExtractError::RateLimited);
        }
        let contents = aria2_input(ddls);
        self.info.saved_files.push(name.clone());
        self.info.missing_files.append(&mut missing);
        self.info.extract_errors.append(&mut failures);
        proof {
            assert(strings_view(self.info.saved_files@) =~= old(self)@.saved_files.push(name@));
            assert(strings_view(self.info.missing_files@) =~= old(self)@.missing_files
                + deleted_files(all));
            assert(strings_view(self.info.extract_errors@) =~= old(self)@.extract_errors
                + failure_lines(all));
        }
        Ok(OutputFile { file_name: name, contents })
    }

    /// Ends the run: the report, or the rate-limiting error when the run was aborted.
    pub fn finish(self) -> (r: Result<ExtractionInfo, ExtractError>)
        ensures
            self@.aborted ==> r == Err::<ExtractionInfo, ExtractError>(ExtractError::RateLimited),
            !self@.aborted ==> (r matches Ok(info) && info.reports(self@)),
    {
        if self.aborted {
            Err(ExtractError::RateLimited)
        } else {
            Ok(self.info)
        }
    }
}

/// Whether a finished extraction counts as progress: every outcome does but rate limiting,
/// which ends the run instead.
pub fn counts_as_progress(outcome: &Result<DDL, ExtractError>) -> (r: bool)
    ensures
        r == !(*outcome == Err::<DDL, ExtractError>(ExtractError::RateLimited)),
{
    match outcome {
        Err(ExtractError::RateLimited) => false,
        _ => true,
    }
}

} // verus!
