//! The HTML pages of a project: the project page, the file graph and the
//! analysis page, and the search results block.
use vstd::prelude::*;
use crate::imports::views;
use crate::models::{Project, keys};
use crate::sort::{sort_by_key, sorted_by_key};
use crate::text::{
    append_chars, append_str, chars_of, eq_str, has_prefix, join, replace, replace_str, slice, split, split_exec,
    starts_with, string_of,
};

verus! {

/// `selected` when `model` is `m`, else empty.
pub open spec fn selected_if(model: Seq<char>, m: Seq<char>) -> Seq<char> {
    if model == m { "selected"@ } else { ""@ }
}

fn selected_mark(model: &String, m: &str) -> (r: String)
    ensures
        r@ == selected_if(model@, m@),
{
    if eq_str(&chars_of(model.as_str()), m) {
        string_of(&chars_of("selected"))
    } else {
        string_of(&chars_of(""))
    }
}

/// The project page: settings form, search form, search results and the
/// summaries' HTML.
pub open spec fn project_page(project: Project, search_results_html: Seq<char>, yaml_files: Seq<char>, query_value: Seq<char>) -> Seq<char> {
    "\n        <html>\n            <head>\n                <title>"@
            + project.name@
            + "</title>\n                <link rel=\"stylesheet\" href=\"/static/project.css\">\n                <link rel=\"stylesheet\" href=\"/static/split-chat.css\">\n                <link rel=\"stylesheet\" href=\"/static/split-modal.css\">\n                <script src=\"/static/project.js\"></script>\n                <script src=\"/static/split-file.js\" type=\"module\"></script>\n            </head>\n            <body>\n                <div id=\"validationModal\" class=\"path-comment-modal\">\n                    <div class=\"modal-content\">\n                        <span class=\"close\">&times;</span>\n                        <h2>Validation Results</h2>\n                        <ul id=\"validationList\"></ul>\n                    </div>\n                </div>\n                <div class=\"head\">\n                    <h1>"@
            + project.name@
            + "</h1>\n                    \n                    <!-- Project Settings Form -->\n                    <div class=\"project-settings\">\n                        <form action=\"/update/"@
            + project.name@
            + "/settings\" method=\"post\">\n                            <div class=\"form-group\">\n                                <label for=\"languages\">File Extensions (comma-separated):</label>\n                                <input type=\"text\" id=\"languages\" name=\"languages\" value=\""@
            + project.languages@
            + "\" required>\n                            </div>\n                            <div class=\"form-group\">\n                                <label for=\"model\">Model:</label>\n                                <select name=\"model\" id=\"model\">\n                                    <option value=\"gemini\" "@
            + selected_if(project.model@, "gemini"@)
            + "> Gemini</option>\n                                    <option value=\"openai\" "@
            + selected_if(project.model@, "openai"@)
            + "> OpenAI</option>\n                                    <option value=\"anthropic\" "@
            + selected_if(project.model@, "anthropic"@)
            + "> Anthropic</option>\n                                </select>\n                            </div>\n                            <button type=\"submit\">Update Settings</button>\n                        </form>\n                    </div>\n                    \n                    <p>Source Directory: "@
            + project.source_dir@
            + "</p>\n\n                    <!-- Search Form -->\n                    <div class=\"search-form\">\n                        <form action=\"/projects/"@
            + project.name@
            + "\" method=\"get\">\n                            <textarea name=\"q\" placeholder=\"Enter your query...\" value=\""@
            + query_value
            + "\"></textarea>\n                            <button type=\"submit\">Search</button>\n                        </form>\n                    </div>\n\n                    "@
            + search_results_html
            + "\n\n                </div>\n                <a href=\"/\" class=\"center\">Go Back</a>\n                <input type=\"checkbox\" id=\"trigger-checkbox\">\n                <label for=\"trigger-checkbox\">Hide Regen Buttons</label>\n                "@
            + yaml_files
            + "\n                <script type=\"module\">\n                    import { suggestSplit } from '/static/split-file.js';\n\n                    //Make suggestSplit accessible globally by assigning it to window\n                    window.suggestSplit = suggestSplit;\n                </script>\n            </body>\n        </html>\n        "@
}

// ------------------------------------------------------------------------
// File graph
// ------------------------------------------------------------------------
/// The number of leading pieces on which `a` and `b` agree, from `i` on.
pub open spec fn agreeing(a: Seq<Seq<char>>, b: Seq<Seq<char>>, i: int) -> int
    decreases a.len() - i,
{
    if i < 0 || i >= a.len() || i >= b.len() || a[i] != b[i] {
        if i < 0 { 0 } else { i }
    } else {
        agreeing(a, b, i + 1)
    }
}

/// The `/`-separated components that two paths share at the start, joined
/// by `/`, followed by `/`.
pub open spec fn common_prefix_of(a: Seq<char>, b: Seq<char>) -> Seq<char> {
    let pa = split(a, "/"@);
    let pb = split(b, "/"@);
    join(pa.take(agreeing(pa, pb, 0)), "/"@) + "/"@
}

/// The prefix shared by a list of paths, folded from the left with
/// `common_prefix_of`: empty for no path, the path itself for one.
pub open spec fn folded_prefix(paths: Seq<Seq<char>>) -> Seq<char>
    decreases paths.len(),
{
    if paths.len() == 0 {
        seq![]
    } else if paths.len() == 1 {
        paths[0]
    } else {
        common_prefix_of(folded_prefix(paths.drop_last()), paths.last())
    }
}

/// A path without `prefix` when it starts with it.
pub open spec fn without_prefix(path: Seq<char>, prefix: Seq<char>) -> Seq<char> {
    if starts_with(path, prefix) { path.skip(prefix.len() as int) } else { path }
}

/// One line per file: its path without the common prefix, `// `, its description.
pub open spec fn graph_lines(ds: Seq<(String, String)>, prefix: Seq<char>) -> Seq<Seq<char>> {
    ds.map_values(|d: (String, String)| without_prefix(d.0@, prefix) + " // "@ + d.1@)
}

/// The file-graph block of the project page.
pub open spec fn file_graph(project_name: Seq<char>, descriptions: Seq<(String, String)>) -> Seq<char> {
    let sorted = sorted_by_key(descriptions);
    let lines = join(graph_lines(sorted, folded_prefix(keys(sorted))), "\n"@);
    "<div id=\"graphDiv\"><input type=\"checkbox\" id=\"fileGraph\">\n    <label for=\"fileGraph\" style=\"cursor: pointer; font-weight: bold;\">Show File Graph</label>\n    <pre><button onclick=\"validateFilePaths('"@
            + project_name
            + "')\">Validate File Path Comments</button><br>"@
            + lines
            + "</pre></div>"@
}

// ------------------------------------------------------------------------
// File lists
// ------------------------------------------------------------------------
/// A checkbox item for a file, checked when selected.
pub open spec fn file_item(file: Seq<char>, checked: bool) -> Seq<char> {
    "<div class=\"file-item\">\n                        <input type=\"checkbox\" class=\"file-checkbox\" value=\""@
        + file
        + "\" "@
        + (if checked { "checked"@ } else { ""@ })
        + "> "@
        + file
        + "\n                    </div>"@
}

/// The items of a list of files, one per line.
pub open spec fn file_list(files: Seq<Seq<char>>, selected: Seq<Seq<char>>) -> Seq<char> {
    join(files.map_values(|f: Seq<char>| file_item(f, selected.contains(f))), "\n"@)
}

/// The entries of `s` that `exclude` does not hold, in order.
pub open spec fn not_in(s: Seq<Seq<char>>, exclude: Seq<Seq<char>>) -> Seq<Seq<char>>
    decreases s.len(),
{
    if s.len() == 0 {
        seq![]
    } else {
        not_in(s.drop_last(), exclude) + if exclude.contains(s.last()) { seq![] } else { seq![s.last()] }
    }
}

/// The analysis page: the query, the relevant and other files with their
/// checkboxes, and the chat.
pub open spec fn analyze_page(
    project_name: Seq<char>,
    query: Seq<char>,
    relevant_html: Seq<char>,
    other_html: Seq<char>,
    existing_chat_html: Seq<char>,
) -> Seq<char> {
    "\n            <html>\n                <head>\n                    <title>Code Analysis - "@
            + project_name
            + "</title>\n                    <link rel=\"stylesheet\" href=\"/static/project.css\">\n                    <link rel=\"stylesheet\" href=\"/static/analyze-query.css\">\n                    <link rel=\"stylesheet\" href=\"/static/split-chat.css\">\n                    <script src=\"/static/analyze-query.js\" type=\"module\"></script>\n                </head>\n                <body>\n                <div class=\"head\">\n                    <h1>Code Analysis</h1>\n                    <p>Project: "@
            + project_name
            + "</p>\n                    <p>Query: "@
            + query
            + "</p>\n                </div>\n                \n\n                <div class=\"analysis-container\">\n                    <div class=\"file-snippets\">\n                        <h2>Files for Analysis</h2>\n                        \n                        <div id=\"context-status\" style=\"display: none; margin: 10px 0; padding: 5px; \n                            background-color: #f0f0f0; border-radius: 4px; transition: opacity 0.5s;\">\n                        </div>\n                        \n                        <div class=\"file-list\">\n                            <h3>\n                                Relevant Files \n                                <button id=\"toggle-relevant-files\" class=\"toggle-button\">Toggle All</button>\n                            </h3>\n                            <div id=\"relevant-files-list\">\n                                "@
            + relevant_html
            + "\n                            </div>\n                        </div>\n                        \n                        <div class=\"file-list\">\n                            <h3>\n                                Other Project Files\n                                <button id=\"toggle-other-files\" class=\"toggle-button\">Toggle All</button>\n                            </h3>\n                            <div id=\"other-files-list\">\n                                "@
            + other_html
            + "\n                            </div>\n                        </div>\n                        \n                    </div>\n                    \n                    <div class=\"chat-interface\">\n                        <h2>Analysis Chat</h2>\n                        <input type=\"hidden\" id=\"project-name\" value=\""@
            + project_name
            + "\">\n                        <input type=\"hidden\" id=\"query-text\" value=\""@
            + query
            + "\">\n                        \n                        <div id=\"analysis-chat-container\" class=\"chat-container\">\n                            "@
            + existing_chat_html
            + "\n                        </div>\n                        \n                        <div class=\"chat-input\">\n                            <input type=\"text\" id=\"analysis-message-input\" placeholder=\"Ask a question about the code...\">\n                            <button id=\"analysis-send-button\">Send</button>\n                            <button id=\"analysis-reset-button\" class=\"secondary\">Reset Chat</button>\n                        </div>\n                    </div>\n                </div>\n                \n                <div class=\"actions\">\n                    <a href=\"/projects/"@
            + project_name
            + "\" class=\"button\">Back to Project</a>\n                </div>\n                </body>\n            </html>\n            "@
}

fn file_item_exec(file: &String, checked: bool) -> (r: Vec<char>)
    ensures
        r@ == file_item(file@, checked),
{
    let mark = if checked { string_of(&chars_of("checked")) } else { string_of(&chars_of("")) };
    let mut p = chars_of("<div class=\"file-item\">\n                        <input type=\"checkbox\" class=\"file-checkbox\" value=\"");
    append_str(&mut p, file.as_str());
    append_str(&mut p, "\" ");
    append_str(&mut p, mark.as_str());
    append_str(&mut p, "> ");
    append_str(&mut p, file.as_str());
    append_str(&mut p, "\n                    </div>");
    p
}

fn contains_view(v: &Vec<String>, x: &String) -> (r: bool)
    ensures
        r == views(v@).contains(x@),
{
    let mut i: usize = 0;
    while i < v.len()
        invariant
            i <= v.len(),
            forall|j: int| 0 <= j < i ==> v@[j]@ != x@,
        decreases v.len() - i,
    {
        if v[i].eq(x) {
            assert(views(v@)[i as int] == x@);
            return true;
        }
        i += 1;
    }
    assert(!views(v@).contains(x@)) by {
        if views(v@).contains(x@) {
            let j = choose|j: int| 0 <= j < views(v@).len() && views(v@)[j] == x@;
            assert(v@[j]@ == x@);
        }
    }
    false
}

/// The entries kept by `not_in` are exactly those of `s` that `exclude`
/// does not hold.
proof fn lemma_not_in(s: Seq<Seq<char>>, exclude: Seq<Seq<char>>)
    ensures
        forall|x: Seq<char>| #[trigger] not_in(s, exclude).contains(x) <==> s.contains(x) && !exclude.contains(x),
    decreases s.len(),
{
    if s.len() > 0 {
        let d = s.drop_last();
        lemma_not_in(d, exclude);
        let tail: Seq<Seq<char>> = if exclude.contains(s.last()) { seq![] } else { seq![s.last()] };
        assert forall|x: Seq<char>| #[trigger] not_in(s, exclude).contains(x) <==> s.contains(x) && !exclude.contains(x) by {
            let r = not_in(s, exclude);
            assert(r == not_in(d, exclude) + tail);
            if r.contains(x) {
                let w = choose|w: int| 0 <= w < r.len() && r[w] == x;
                if w < not_in(d, exclude).len() {
                    assert(not_in(d, exclude).contains(x));
                    let v = choose|v: int| 0 <= v < d.len() && d[v] == x;
                    assert(s[v] == x);
                } else {
                    assert(tail[w - not_in(d, exclude).len()] == x);
                    assert(s[s.len() - 1] == x);
                }
            }
            if s.contains(x) && !exclude.contains(x) {
                let v = choose|v: int| 0 <= v < s.len() && s[v] == x;
                if v < s.len() - 1 {
                    assert(d[v] == x);
                    assert(d.contains(x));
                    assert(not_in(d, exclude).contains(x));
                    let w = choose|w: int| 0 <= w < not_in(d, exclude).len() && not_in(d, exclude)[w] == x;
                    assert(r[w] == x);
                } else {
                    assert(r[r.len() - 1] == x);
                }
            }
        }
    }
}

/// The files offered besides the excluded ones are exactly the embedded
/// files and the files excluded from search, less those in `exclude`: none
/// of them is excluded, and every such file is offered.
pub proof fn law_other_files(embedded: Seq<Seq<char>>, excluded_search: Seq<Seq<char>>, exclude: Seq<Seq<char>>)
    ensures
        forall|x: Seq<char>| #[trigger] not_in(embedded + excluded_search, exclude).contains(x) <==> (embedded.contains(x)
            || excluded_search.contains(x)) && !exclude.contains(x),
{
    let all = embedded + excluded_search;
    lemma_not_in(all, exclude);
    assert forall|x: Seq<char>| all.contains(x) <==> embedded.contains(x) || excluded_search.contains(x) by {
        if all.contains(x) {
            let w = choose|w: int| 0 <= w < all.len() && all[w] == x;
            if w < embedded.len() {
                assert(embedded[w] == x);
            } else {
                assert(excluded_search[w - embedded.len()] == x);
            }
        }
        if embedded.contains(x) {
            let w = choose|w: int| 0 <= w < embedded.len() && embedded[w] == x;
            assert(all[w] == x);
        }
        if excluded_search.contains(x) {
            let w = choose|w: int| 0 <= w < excluded_search.len() && excluded_search[w] == x;
            assert(all[w + embedded.len()] == x);
        }
    }
}

fn not_in_exec(s: &Vec<String>, exclude: &Vec<String>) -> (r: Vec<String>)
    ensures
        views(r@) == not_in(views(s@), views(exclude@)),
{
    let mut r: Vec<String> = Vec::new();
    let mut i: usize = 0;
    while i < s.len()
        invariant
            i <= s.len(),
            views(r@) == not_in(views(s@).take(i as int), views(exclude@)),
        decreases s.len() - i,
    {
        assert(views(s@).take(i + 1).drop_last() =~= views(s@).take(i as int));
        assert(views(s@).take(i + 1).last() == s@[i as int]@);
        if !contains_view(exclude, &s[i]) {
            let ghost before = r@;
            r.push(s[i].clone());
            assert(views(r@) =~= views(before).push(s@[i as int]@));
        }
        i += 1;
    }
    assert(views(s@).take(s.len() as int) =~= views(s@));
    r
}

fn key_list<V>(entries: &Vec<(String, V)>) -> (r: Vec<String>)
    ensures
        views(r@) == keys(entries@),
{
    let mut r: Vec<String> = Vec::new();
    let mut i: usize = 0;
    while i < entries.len()
        invariant
            i <= entries.len(),
            views(r@) == keys(entries@.take(i as int)),
        decreases entries.len() - i,
    {
        let ghost before = r@;
        r.push(entries[i].0.clone());
        assert(views(r@) =~= views(before).push(entries@[i as int].0@));
        assert(keys(entries@.take(i + 1)) =~= keys(entries@.take(i as int)).push(entries@[i as int].0@));
        i += 1;
    }
    assert(entries@.take(entries.len() as int) =~= entries@);
    r
}

// ------------------------------------------------------------------------
// Search results
// ------------------------------------------------------------------------
/// One found file of the search results: its path and its score, the score
/// already written with four decimals.
pub open spec fn result_item(path: Seq<char>, score: Seq<char>) -> Seq<char> {
    "<div class=\"result-file\">\n                <h3>"@ + path + " (Score: "@ + score + ")</h3>\n            </div>"@
}

/// The found files of the search results, in order.
pub open spec fn result_items(results: Seq<(String, String)>) -> Seq<char>
    decreases results.len(),
{
    if results.len() == 0 {
        seq![]
    } else {
        result_items(results.drop_last()) + result_item(results.last().0@, results.last().1@)
    }
}

/// The search results block: the query, each found file with its score, the
/// model's analysis with line breaks as `<br>`, and (unless the query is
/// transient) the form that opens the query's chat.
pub open spec fn search_results_page(
    query_text: Seq<char>,
    results: Seq<(String, String)>,
    llm_analysis: Seq<char>,
    project_name: Seq<char>,
    query_id: Seq<char>,
) -> Seq<char> {
    "<div class=\"search-results\">\n            <h2>Search Results for: \""@ + query_text + "\"</h2>\n            <div class=\"result-files\">"@ + result_items(results)
        + "</div>\n        <div class=\"llm-analysis\">\n            <h2>Analysis</h2>\n            <div class=\"analysis-content\">\n                "@ + replace(llm_analysis, "\n"@, "<br>"@) + "\n            </div>\n        </div>"@
        + if query_id == "transient_query_id"@ {
            seq![]
        } else {
            "<div class=\"query-actions\">\n                <form action=\"/analyze-query/"@ + project_name + "/"@ + query_id + "\" method=\"get\">\n                    <input type=\"hidden\" name=\"query\" value=\""@ + query_text + "\">\n                    <button type=\"submit\" class=\"analyze-button\">Chat with Analysis</button>\n                </form>\n            </div>"@
        }
}

/// Renders the project's pages.
pub struct TemplateService;

impl TemplateService {
    /// The search results block; `results` holds each found file's path and
    /// its score written with four decimals.
    pub fn render_search_results(
        &self,
        query_text: &str,
        results: &Vec<(String, String)>,
        llm_analysis: &str,
        project_name: &str,
        query_id: &str,
    ) -> (r: String)
        ensures
            r@ == search_results_page(query_text@, results@, llm_analysis@, project_name@, query_id@),
    {
        let mut out = chars_of("<div class=\"search-results\">\n            <h2>Search Results for: \"");
        append_str(&mut out, query_text);
        append_str(&mut out, "\"</h2>\n            <div class=\"result-files\">");
        let ghost head = out@;
        let mut i: usize = 0;
        while i < results.len()
            invariant
                i <= results.len(),
                out@ == head + result_items(results@.take(i as int)),
            decreases results.len() - i,
        {
            assert(results@.take(i + 1).drop_last() =~= results@.take(i as int));
            assert(results@.take(i + 1).last() == results@[i as int]);
            append_str(&mut out, "<div class=\"result-file\">\n                <h3>");
            append_str(&mut out, results[i].0.as_str());
            append_str(&mut out, " (Score: ");
            append_str(&mut out, results[i].1.as_str());
            append_str(&mut out, ")</h3>\n            </div>");
            i += 1;
        }
        assert(results@.take(results.len() as int) =~= results@);
        append_str(&mut out, "</div>\n        <div class=\"llm-analysis\">\n            <h2>Analysis</h2>\n            <div class=\"analysis-content\">\n                ");
        let analysis = chars_of(llm_analysis);
        let shown = replace_str(&analysis, "\n", "<br>");
        append_chars(&mut out, &shown);
        append_str(&mut out, "\n            </div>\n        </div>");
        let qv = chars_of(query_id);
        if !eq_str(&qv, "transient_query_id") {
            append_str(&mut out, "<div class=\"query-actions\">\n                <form action=\"/analyze-query/");
            append_str(&mut out, project_name);
            append_str(&mut out, "/");
            append_str(&mut out, query_id);
            append_str(&mut out, "\" method=\"get\">\n                    <input type=\"hidden\" name=\"query\" value=\"");
            append_str(&mut out, query_text);
            append_str(&mut out, "\">\n                    <button type=\"submit\" class=\"analyze-button\">Chat with Analysis</button>\n                </form>\n            </div>");
        }
        string_of(&out)
    }

    pub fn new() -> Self {
        TemplateService {}
    }

    /// The project page.
    pub fn render_project_page(&self, project: &Project, search_results_html: &str, yaml_files: &str, query_value: &str) -> (r: String)
        ensures
            r@ == project_page(*project, search_results_html@, yaml_files@, query_value@),
    {
        let sel_g = selected_mark(&project.model, "gemini");
        let sel_o = selected_mark(&project.model, "openai");
        let sel_a = selected_mark(&project.model, "anthropic");
        let mut p = chars_of("\n        <html>\n            <head>\n                <title>");
        append_str(&mut p, project.name.as_str());
        append_str(&mut p, "</title>\n                <link rel=\"stylesheet\" href=\"/static/project.css\">\n                <link rel=\"stylesheet\" href=\"/static/split-chat.css\">\n                <link rel=\"stylesheet\" href=\"/static/split-modal.css\">\n                <script src=\"/static/project.js\"></script>\n                <script src=\"/static/split-file.js\" type=\"module\"></script>\n            </head>\n            <body>\n                <div id=\"validationModal\" class=\"path-comment-modal\">\n                    <div class=\"modal-content\">\n                        <span class=\"close\">&times;</span>\n                        <h2>Validation Results</h2>\n                        <ul id=\"validationList\"></ul>\n                    </div>\n                </div>\n                <div class=\"head\">\n                    <h1>");
        append_str(&mut p, project.name.as_str());
        append_str(&mut p, "</h1>\n                    \n                    <!-- Project Settings Form -->\n                    <div class=\"project-settings\">\n                        <form action=\"/update/");
        append_str(&mut p, project.name.as_str());
        append_str(&mut p, "/settings\" method=\"post\">\n                            <div class=\"form-group\">\n                                <label for=\"languages\">File Extensions (comma-separated):</label>\n                                <input type=\"text\" id=\"languages\" name=\"languages\" value=\"");
        append_str(&mut p, project.languages.as_str());
        append_str(&mut p, "\" required>\n                            </div>\n                            <div class=\"form-group\">\n                                <label for=\"model\">Model:</label>\n                                <select name=\"model\" id=\"model\">\n                                    <option value=\"gemini\" ");
        append_str(&mut p, sel_g.as_str());
        append_str(&mut p, "> Gemini</option>\n                                    <option value=\"openai\" ");
        append_str(&mut p, sel_o.as_str());
        append_str(&mut p, "> OpenAI</option>\n                                    <option value=\"anthropic\" ");
        append_str(&mut p, sel_a.as_str());
        append_str(&mut p, "> Anthropic</option>\n                                </select>\n                            </div>\n                            <button type=\"submit\">Update Settings</button>\n                        </form>\n                    </div>\n                    \n                    <p>Source Directory: ");
        append_str(&mut p, project.source_dir.as_str());
        append_str(&mut p, "</p>\n\n                    <!-- Search Form -->\n                    <div class=\"search-form\">\n                        <form action=\"/projects/");
        append_str(&mut p, project.name.as_str());
        append_str(&mut p, "\" method=\"get\">\n                            <textarea name=\"q\" placeholder=\"Enter your query...\" value=\"");
        append_str(&mut p, query_value);
        append_str(&mut p, "\"></textarea>\n                            <button type=\"submit\">Search</button>\n                        </form>\n                    </div>\n\n                    ");
        append_str(&mut p, search_results_html);
        append_str(&mut p, "\n\n                </div>\n                <a href=\"/\" class=\"center\">Go Back</a>\n                <input type=\"checkbox\" id=\"trigger-checkbox\">\n                <label for=\"trigger-checkbox\">Hide Regen Buttons</label>\n                ");
        append_str(&mut p, yaml_files);
        append_str(&mut p, "\n                <script type=\"module\">\n                    import { suggestSplit } from '/static/split-file.js';\n\n                    //Make suggestSplit accessible globally by assigning it to window\n                    window.suggestSplit = suggestSplit;\n                </script>\n            </body>\n        </html>\n        ");
        string_of(&p)
    }

    /// The components two paths share at the start, joined by `/`, followed by `/`.
    pub fn common_path_prefix(&self, a: &str, b: &str) -> (r: String)
        ensures
            r@ == common_prefix_of(a@, b@),
    {
        let slash = chars_of("/");
        proof {
            reveal_strlit("/");
        }
        let pa = split_exec(&chars_of(a), &slash);
        let pb = split_exec(&chars_of(b), &slash);
        let ghost sa = split(a@, "/"@);
        let ghost sb = split(b@, "/"@);
        let mut shared: Vec<Vec<char>> = Vec::new();
        let mut i: usize = 0;
        while i < pa.len() && i < pb.len() && crate::text::chars_eq(&pa[i], &pb[i])
            invariant
                i <= pa.len(),
                i <= pb.len(),
                pa@.len() == sa.len(),
                pb@.len() == sb.len(),
                forall|k: int| 0 <= k < pa@.len() ==> #[trigger] pa@[k]@ == sa[k],
                forall|k: int| 0 <= k < pb@.len() ==> #[trigger] pb@[k]@ == sb[k],
                agreeing(sa, sb, 0) == agreeing(sa, sb, i as int),
                shared@.map_values(|v: Vec<char>| v@) == sa.take(i as int),
            decreases pa.len() - i,
        {
            assert(pa@[i as int]@ == sa[i as int]);
            assert(pb@[i as int]@ == sb[i as int]);
            let ghost before = shared@;
            shared.push(slice(&pa[i], 0, pa[i].len()));
            assert(pa@[i as int]@.subrange(0, pa@[i as int]@.len() as int) =~= pa@[i as int]@);
            assert(shared@.map_values(|v: Vec<char>| v@) =~= before.map_values(|v: Vec<char>| v@).push(sa[i as int]));
            assert(sa.take(i + 1) =~= sa.take(i as int).push(sa[i as int]));
            i += 1;
        }
        if i < pa.len() && i < pb.len() {
            assert(pa@[i as int]@ == sa[i as int]);
            assert(pb@[i as int]@ == sb[i as int]);
        }
        assert(agreeing(sa, sb, i as int) == i);
        let mut out = crate::text::join_exec(&shared, &slash);
        append_str(&mut out, "/");
        string_of(&out)
    }

    /// The file-graph block: the described files in path order, each without
    /// the prefix they share, with its description.
    pub fn generate_file_graph_html(&self, project_name: &str, file_descriptions: &Vec<(String, String)>) -> (r: String)
        ensures
            r@ == file_graph(project_name@, file_descriptions@),
    {
        let sorted = sort_by_key(crate::agent_flow::copy_pairs(file_descriptions));
        let ghost ks = keys(sorted@);
        let mut prefix: Vec<char> = Vec::new();
        if sorted.len() > 0 {
            prefix = chars_of(sorted[0].0.as_str());
            assert(ks.take(1) =~= seq![ks[0]]);
            let mut i: usize = 1;
            while i < sorted.len()
                invariant
                    1 <= i <= sorted.len(),
                    ks == keys(sorted@),
                    prefix@ == folded_prefix(ks.take(i as int)),
                decreases sorted.len() - i,
            {
                assert(ks.take(i + 1).drop_last() =~= ks.take(i as int));
                assert(ks.take(i + 1).last() == sorted@[i as int].0@);
                let ps = string_of(&prefix);
                let c = self.common_path_prefix(ps.as_str(), sorted[i].0.as_str());
                prefix = chars_of(c.as_str());
                i += 1;
            }
            assert(ks.take(sorted.len() as int) =~= ks);
        } else {
            assert(ks =~= Seq::<Seq<char>>::empty());
        }
        let mut lines: Vec<Vec<char>> = Vec::new();
        let mut j: usize = 0;
        while j < sorted.len()
            invariant
                j <= sorted.len(),
                ks == keys(sorted@),
                prefix@ == folded_prefix(ks),
                lines@.map_values(|v: Vec<char>| v@) == graph_lines(sorted@, prefix@).take(j as int),
            decreases sorted.len() - j,
        {
            let path = chars_of(sorted[j].0.as_str());
            let mut line = if has_prefix(&path, &prefix) {
                slice(&path, prefix.len(), path.len())
            } else {
                path
            };
            append_str(&mut line, " // ");
            append_str(&mut line, sorted[j].1.as_str());
            let ghost before = lines@;
            lines.push(line);
            assert(lines@.map_values(|v: Vec<char>| v@) =~= before.map_values(|v: Vec<char>| v@).push(graph_lines(sorted@, prefix@)[j as int]));
            assert(graph_lines(sorted@, prefix@).take(j + 1) =~= graph_lines(sorted@, prefix@).take(j as int).push(graph_lines(sorted@, prefix@)[j as int]));
            j += 1;
        }
        assert(graph_lines(sorted@, prefix@).take(sorted.len() as int) =~= graph_lines(sorted@, prefix@));
        let nl = chars_of("\n");
        let joined = crate::text::join_exec(&lines, &nl);
        let ls = string_of(&joined);
        let mut p = chars_of("<div id=\"graphDiv\"><input type=\"checkbox\" id=\"fileGraph\">\n    <label for=\"fileGraph\" style=\"cursor: pointer; font-weight: bold;\">Show File Graph</label>\n    <pre><button onclick=\"validateFilePaths('");
        append_str(&mut p, project_name);
        append_str(&mut p, "')\">Validate File Path Comments</button><br>");
        append_str(&mut p, ls.as_str());
        append_str(&mut p, "</pre></div>");
        string_of(&p)
    }

    /// A checkbox item per file, one per line; checked for the selected files.
    pub fn generate_file_list(&self, files: &Vec<String>, selected_files: &Vec<String>) -> (r: String)
        ensures
            r@ == file_list(views(files@), views(selected_files@)),
    {
        let mut items: Vec<Vec<char>> = Vec::new();
        let ghost want = views(files@).map_values(|f: Seq<char>| file_item(f, views(selected_files@).contains(f)));
        let mut i: usize = 0;
        while i < files.len()
            invariant
                i <= files.len(),
                want == views(files@).map_values(|f: Seq<char>| file_item(f, views(selected_files@).contains(f))),
                items@.map_values(|v: Vec<char>| v@) == want.take(i as int),
            decreases files.len() - i,
        {
            let checked = contains_view(selected_files, &files[i]);
            let item = file_item_exec(&files[i], checked);
            let ghost before = items@;
            items.push(item);
            assert(items@.map_values(|v: Vec<char>| v@) =~= before.map_values(|v: Vec<char>| v@).push(want[i as int]));
            assert(want.take(i + 1) =~= want.take(i as int).push(want[i as int]));
            i += 1;
        }
        assert(want.take(files.len() as int) =~= want);
        let nl = chars_of("\n");
        string_of(&crate::text::join_exec(&items, &nl))
    }

    /// The list of the project's embedded files that are not excluded.
    pub fn generate_other_files_list(&self, project: &Project, exclude_files: &Vec<String>, selected_files: &Vec<String>) -> (r: String)
        ensures
            r@ == file_list(not_in(keys(project.embeddings@), views(exclude_files@)), views(selected_files@)),
    {
        let all = key_list(&project.embeddings);
        let other = not_in_exec(&all, exclude_files);
        self.generate_file_list(&other, selected_files)
    }

    /// The files of the project that may be offered besides the excluded
    /// ones: the embedded files, then the files excluded from search (as the
    /// caller listed them), leaving out `exclude_files`.
    pub fn get_other_files_list_raw(&self, project: &Project, exclude_files: &Vec<String>, excluded_search_files: &Vec<String>) -> (r: Vec<String>)
        ensures
            views(r@) == not_in(keys(project.embeddings@) + views(excluded_search_files@), views(exclude_files@)),
    {
        let mut all = key_list(&project.embeddings);
        let ghost k = views(all@);
        let mut i: usize = 0;
        while i < excluded_search_files.len()
            invariant
                i <= excluded_search_files.len(),
                views(all@) == k + views(excluded_search_files@).take(i as int),
            decreases excluded_search_files.len() - i,
        {
            let ghost before = all@;
            all.push(excluded_search_files[i].clone());
            assert(views(all@) =~= views(before).push(excluded_search_files@[i as int]@));
            assert(views(excluded_search_files@).take(i + 1) =~= views(excluded_search_files@).take(i as int).push(excluded_search_files@[i as int]@));
            i += 1;
        }
        assert(views(excluded_search_files@).take(excluded_search_files.len() as int) =~= views(excluded_search_files@));
        not_in_exec(&all, exclude_files)
    }

    /// The analysis page for a query: its relevant files and the project's
    /// other embedded files as checkbox lists (checked when in the saved
    /// context), and the existing chat.
    pub fn render_analyze_query_page(
        &self,
        project_name: &str,
        query: &str,
        relevant_files: &Vec<String>,
        saved_context_files: &Vec<String>,
        project: &Project,
        existing_chat_html: &str,
    ) -> (r: String)
        ensures
            r@ == analyze_page(
                project_name@,
                query@,
                file_list(views(relevant_files@), views(saved_context_files@)),
                file_list(not_in(keys(project.embeddings@), views(relevant_files@)), views(saved_context_files@)),
                existing_chat_html@,
            ),
    {
        let relevant_html = self.generate_file_list(relevant_files, saved_context_files);
        let other_html = self.generate_other_files_list(project, relevant_files, saved_context_files);
        let mut p = chars_of("\n            <html>\n                <head>\n                    <title>Code Analysis - ");
        append_str(&mut p, project_name);
        append_str(&mut p, "</title>\n                    <link rel=\"stylesheet\" href=\"/static/project.css\">\n                    <link rel=\"stylesheet\" href=\"/static/analyze-query.css\">\n                    <link rel=\"stylesheet\" href=\"/static/split-chat.css\">\n                    <script src=\"/static/analyze-query.js\" type=\"module\"></script>\n                </head>\n                <body>\n                <div class=\"head\">\n                    <h1>Code Analysis</h1>\n                    <p>Project: ");
        append_str(&mut p, project_name);
        append_str(&mut p, "</p>\n                    <p>Query: ");
        append_str(&mut p, query);
        append_str(&mut p, "</p>\n                </div>\n                \n\n                <div class=\"analysis-container\">\n                    <div class=\"file-snippets\">\n                        <h2>Files for Analysis</h2>\n                        \n                        <div id=\"context-status\" style=\"display: none; margin: 10px 0; padding: 5px; \n                            background-color: #f0f0f0; border-radius: 4px; transition: opacity 0.5s;\">\n                        </div>\n                        \n                        <div class=\"file-list\">\n                            <h3>\n                                Relevant Files \n                                <button id=\"toggle-relevant-files\" class=\"toggle-button\">Toggle All</button>\n                            </h3>\n                            <div id=\"relevant-files-list\">\n                                ");
        append_str(&mut p, relevant_html.as_str());
        append_str(&mut p, "\n                            </div>\n                        </div>\n                        \n                        <div class=\"file-list\">\n                            <h3>\n                                Other Project Files\n                                <button id=\"toggle-other-files\" class=\"toggle-button\">Toggle All</button>\n                            </h3>\n                            <div id=\"other-files-list\">\n                                ");
        append_str(&mut p, other_html.as_str());
        append_str(&mut p, "\n                            </div>\n                        </div>\n                        \n                    </div>\n                    \n                    <div class=\"chat-interface\">\n                        <h2>Analysis Chat</h2>\n                        <input type=\"hidden\" id=\"project-name\" value=\"");
        append_str(&mut p, project_name);
        append_str(&mut p, "\">\n                        <input type=\"hidden\" id=\"query-text\" value=\"");
        append_str(&mut p, query);
        append_str(&mut p, "\">\n                        \n                        <div id=\"analysis-chat-container\" class=\"chat-container\">\n                            ");
        append_str(&mut p, existing_chat_html);
        append_str(&mut p, "\n                        </div>\n                        \n                        <div class=\"chat-input\">\n                            <input type=\"text\" id=\"analysis-message-input\" placeholder=\"Ask a question about the code...\">\n                            <button id=\"analysis-send-button\">Send</button>\n                            <button id=\"analysis-reset-button\" class=\"secondary\">Reset Chat</button>\n                        </div>\n                    </div>\n                </div>\n                \n                <div class=\"actions\">\n                    <a href=\"/projects/");
        append_str(&mut p, project_name);
        append_str(&mut p, "\" class=\"button\">Back to Project</a>\n                </div>\n                </body>\n            </html>\n            ");
        string_of(&p)
    }
}

} // verus!
