//! Properties that hold across the library's operations.

use vstd::prelude::*;

use crate::url_input::{spec_text_to_url, has_http_scheme};
use crate::history::{BrowserHistory, EntryView, MAX_ENTRIES, urls_distinct, is_recordable, url_index, is_first_oldest, swap_removed, can_count_visit};
use crate::service_hub::{ServiceOperationRequest, ServiceAuthActionRequest, ServiceAuthAction, ServiceArtifactKind, spec_asc_operation, spec_asc_auth_action, spec_upload_build};
use crate::services_page::{has_section, normalized_section, chosen_provider, provider_index, reselected_app, ServicesPageState};
use crate::service_hub::ServiceProviderDescriptor;
use crate::tab_strip::{TabEntry, ClosedTab, MAX_CLOSED_TABS, pinned_first};
use crate::app_runtime::{DetectedProject, ExecutionRequest, RuntimeAction, RuntimeErrorView, RuntimeTarget, RuntimeDevice, spec_execution_plan, spec_run_script, spec_xcode_selector, shell_quoted, derived_data_dir};
use crate::text::{occurs_at, seq_contains_piece};
use crate::bookmarks::{BookmarkView, has_url};
use crate::omnibox::{OmniboxSuggestion, spec_suggestion_url};
use crate::search::lemma_first_match_some;
use crate::text_input::{Keystroke, BrowserKeyDispatch, spec_key_dispatch};

verus! {

/// Every URL the address bar produces, for any text, has an `http` or `https` scheme.
pub proof fn address_bar_urls_have_http_scheme(text: Seq<char>)
    ensures
        has_http_scheme(spec_text_to_url(text)),
{
    let r = spec_text_to_url(text);
    let https = "https://"@;
    let http = "http://"@;
    if has_http_scheme(text) {
    } else if !crate::url_input::spec_looks_like_url(text) {
        let prefix = "https://www.google.com/search?q="@;
        assert(r == prefix + crate::url_input::form_urlencode(vstd::utf8::encode_utf8(text)));
        reveal_strlit("https://www.google.com/search?q=");
        reveal_strlit("https://");
        assert(r.subrange(0, 8) =~= https);
    } else if crate::url_input::spec_should_use_http(text) {
        reveal_strlit("http://");
        assert(r.subrange(0, 7) =~= http);
    } else {
        reveal_strlit("https://");
        assert(r.subrange(0, 8) =~= https);
    }
}

/// Recording a visit never lists a URL twice.
pub proof fn history_urls_stay_distinct(s: Seq<EntryView>, url: Seq<char>, title: Seq<char>, now: u64)
    requires
        urls_distinct(s),
    ensures
        urls_distinct(BrowserHistory::spec_record_visit(s, url, title, now)),
{
    let r = BrowserHistory::spec_record_visit(s, url, title, now);
    if is_recordable(url) {
        match url_index(s, url) {
            Some(i) => {
                lemma_first_match_some(s, |e: EntryView| e.0 == url);
                assert forall|a: int, b: int| 0 <= a < b < r.len() implies r[a].0 != r[b].0 by {
                    assert(r[a].0 == s[a].0);
                    assert(r[b].0 == s[b].0);
                }
            },
            None => {
                let p = |e: EntryView| e.0 == url;
                assert forall|k: int| 0 <= k < s.len() implies s[k].0 != url by {
                    if s[k].0 == url {
                        assert(p(s[k]));
                    }
                }
                let pushed = s.push((url, title, 1u32, now));
                assert(urls_distinct(pushed));
                if pushed.len() > MAX_ENTRIES {
                    lemma_first_oldest_exists(pushed);
                    let m = choose|m: int| is_first_oldest(pushed, m);
                    let q = swap_removed(pushed, m);
                    assert forall|a: int, b: int| 0 <= a < b < q.len() implies q[a].0 != q[b].0 by {
                        let aa = if a == m { pushed.len() - 1 } else { a };
                        let bb = if b == m { pushed.len() - 1 } else { b };
                        assert(q[a] == pushed[aa]);
                        assert(q[b] == pushed[bb]);
                    }
                }
            },
        }
    }
}

/// A non-empty history has a first entry with the earliest last visit.
proof fn lemma_first_oldest_exists(s: Seq<EntryView>)
    requires
        s.len() > 0,
    ensures
        exists|m: int| is_first_oldest(s, m),
    decreases s.len(),
{
    if s.len() == 1 {
        assert(is_first_oldest(s, 0));
    } else {
        let t = s.drop_last();
        lemma_first_oldest_exists(t);
        let m = choose|m: int| is_first_oldest(t, m);
        assert(forall|j: int| 0 <= j < t.len() ==> t[j] == s[j]);
        if s[m].3 <= s.last().3 {
            assert forall|j: int| 0 <= j < s.len() implies s[m].3 <= s[j].3 by {
                if j < t.len() {
                    assert(t[m].3 <= t[j].3);
                }
            }
            assert(is_first_oldest(s, m));
        } else {
            let l = s.len() - 1;
            assert forall|j: int| 0 <= j < s.len() implies s[l].3 <= s[j].3 by {
                if j < t.len() {
                    assert(t[m].3 <= t[j].3);
                }
            }
            assert forall|j: int| 0 <= j < l implies s[l].3 < s[j].3 by {
                assert(t[m].3 <= t[j].3);
            }
            assert(is_first_oldest(s, l));
        }
    }
}

/// Recording a visit never takes a history of at most `MAX_ENTRIES` entries past that size.
pub proof fn history_stays_bounded(s: Seq<EntryView>, url: Seq<char>, title: Seq<char>, now: u64)
    requires
        s.len() <= MAX_ENTRIES,
    ensures
        BrowserHistory::spec_record_visit(s, url, title, now).len() <= MAX_ENTRIES,
{
    if is_recordable(url) {
        lemma_first_match_some(s, |e: EntryView| e.0 == url);
        if url_index(s, url) is None {
            let pushed = s.push((url, title, 1u32, now));
            if pushed.len() > MAX_ENTRIES {
                lemma_first_oldest_exists(pushed);
            }
        }
    }
}

/// With a clock that never runs back, a recorded visit is listed afterwards with its time.
pub proof fn recorded_visit_is_listed(s: Seq<EntryView>, url: Seq<char>, title: Seq<char>, now: u64)
    requires
        is_recordable(url),
        forall|i: int| 0 <= i < s.len() ==> (#[trigger] s[i]).3 <= now,
    ensures
        exists|i: int| 0 <= i < BrowserHistory::spec_record_visit(s, url, title, now).len()
            && BrowserHistory::spec_record_visit(s, url, title, now)[i].0 == url
            && BrowserHistory::spec_record_visit(s, url, title, now)[i].3 == now,
{
    let r = BrowserHistory::spec_record_visit(s, url, title, now);
    lemma_first_match_some(s, |e: EntryView| e.0 == url);
    match url_index(s, url) {
        Some(i) => {
            assert(r[i].0 == url && r[i].3 == now);
        },
        None => {
            let pushed = s.push((url, title, 1u32, now));
            if pushed.len() > MAX_ENTRIES {
                lemma_first_oldest_exists(pushed);
                let m = choose|m: int| is_first_oldest(pushed, m);
                let last = pushed.len() - 1;
                if m == last {
                    assert(pushed[0].3 <= now);
                    assert(pushed[last].3 < pushed[0].3);
                }
                assert(r[m] == pushed[last]);
            } else {
                assert(r[s.len() as int] == pushed[s.len() as int]);
            }
        },
    }
}

/// With a clock that never runs back and visits that can still be counted, a recorded URL is
/// listed exactly once afterwards, with at least one visit counted.
pub proof fn recorded_url_is_listed_once(s: Seq<EntryView>, url: Seq<char>, title: Seq<char>, now: u64)
    requires
        is_recordable(url),
        urls_distinct(s),
        can_count_visit(s, url),
        forall|i: int| 0 <= i < s.len() ==> (#[trigger] s[i]).3 <= now,
    ensures
        ({
            let r = BrowserHistory::spec_record_visit(s, url, title, now);
            exists|i: int| 0 <= i < r.len() && r[i].0 == url && r[i].2 >= 1
                && forall|j: int| 0 <= j < r.len() && j != i ==> r[j].0 != url
        }),
{
    let r = BrowserHistory::spec_record_visit(s, url, title, now);
    recorded_visit_is_listed(s, url, title, now);
    history_urls_stay_distinct(s, url, title, now);
    lemma_listed_url_counted(s, url, title, now);
    let i = choose|i: int| 0 <= i < r.len() && r[i].0 == url && r[i].3 == now;
    assert(r[i].2 >= 1);
    assert forall|j: int| 0 <= j < r.len() && j != i implies r[j].0 != url by {
        if j < i {
            assert(r[j].0 != r[i].0);
        } else {
            assert(r[i].0 != r[j].0);
        }
    }
}

/// Every entry listed for a recorded URL counts at least one visit.
proof fn lemma_listed_url_counted(s: Seq<EntryView>, url: Seq<char>, title: Seq<char>, now: u64)
    requires
        is_recordable(url),
        urls_distinct(s),
        can_count_visit(s, url),
    ensures
        ({
            let r = BrowserHistory::spec_record_visit(s, url, title, now);
            forall|j: int| 0 <= j < r.len() && r[j].0 == url ==> r[j].2 >= 1
        }),
{
    let r = BrowserHistory::spec_record_visit(s, url, title, now);
    lemma_first_match_some(s, |e: EntryView| e.0 == url);
    match url_index(s, url) {
        Some(k) => {
            assert(s[k].2 < u32::MAX);
            assert forall|j: int| 0 <= j < r.len() && r[j].0 == url implies r[j].2 >= 1 by {
                if j != k {
                    assert(r[j] == s[j]);
                    if j < k {
                        assert(s[j].0 != s[k].0);
                    } else {
                        assert(s[k].0 != s[j].0);
                    }
                }
            }
        },
        None => {
            let p = |e: EntryView| e.0 == url;
            assert forall|k: int| 0 <= k < s.len() implies s[k].0 != url by {
                if s[k].0 == url {
                    assert(p(s[k]));
                }
            }
            let pushed = s.push((url, title, 1u32, now));
            if pushed.len() > MAX_ENTRIES {
                lemma_first_oldest_exists(pushed);
                let m = choose|m: int| is_first_oldest(pushed, m);
                assert forall|j: int| 0 <= j < r.len() && r[j].0 == url implies r[j].2 >= 1 by {
                    let jj = if j == m { pushed.len() - 1 } else { j };
                    assert(r[j] == pushed[jj]);
                }
            } else {
                assert forall|j: int| 0 <= j < r.len() && r[j].0 == url implies r[j].2 >= 1 by {
                    assert(r[j] == pushed[j]);
                }
            }
        },
    }
}

/// Every plan the App Store Connect provider builds runs `asc`, in no particular directory,
/// with no extra environment.
pub proof fn asc_plans_run_asc(req: ServiceOperationRequest, auth: ServiceAuthActionRequest)
    ensures
        spec_asc_operation(req) matches Ok(p) ==> p.command == "asc"@ && p.cwd is None && p.env == Map::<Seq<char>, Seq<char>>::empty(),
        spec_asc_auth_action(auth) matches Ok(p) ==> p.command == "asc"@ && p.cwd is None && p.env == Map::<Seq<char>, Seq<char>>::empty(),
{
}

/// Only `.ipa` and `.pkg` artifacts can be uploaded.
pub proof fn uploads_take_only_ipa_or_pkg(req: ServiceOperationRequest)
    ensures
        spec_upload_build(req) is Ok ==> (req.artifact matches Some(a)
            && (a.kind == ServiceArtifactKind::Ipa || a.kind == ServiceArtifactKind::Pkg)),
{
}

/// Settling on a section is idempotent: a settled section stays as it is.
pub proof fn section_normalization_is_idempotent(d: ServiceProviderDescriptor, requested: Seq<char>)
    ensures
        normalized_section(d, normalized_section(d, requested)) == normalized_section(d, requested),
{
}

/// After tabs are reordered, every pinned tab comes before every unpinned one.
pub proof fn pinned_tabs_come_first(s: Seq<TabEntry>)
    ensures
        forall|i: int, j: int| 0 <= i < j < pinned_first(s).len() && !pinned_first(s)[i].pinned
            ==> !pinned_first(s)[j].pinned,
{
    let p = |t: TabEntry| t.pinned;
    let q = |t: TabEntry| !t.pinned;
    s.filter_lemma(p);
    s.filter_lemma(q);
    let a = s.filter(p);
    let b = s.filter(q);
    assert forall|i: int, j: int| 0 <= i < j < (a + b).len() && !(a + b)[i].pinned implies !(a + b)[j].pinned by {
        if i < a.len() {
            assert((a + b)[i] == a[i]);
            assert(p(a[i]));
        } else {
            assert((a + b)[j] == b[j - a.len()]);
            assert(q(b[j - a.len()]));
        }
    }
}

/// Every plan for a detected project runs a `zsh` script from the project's workspace root.
pub proof fn execution_plans_run_in_workspace_root(projects: Seq<DetectedProject>, req: ExecutionRequest)
    ensures
        spec_execution_plan(projects, req) matches Ok(p) ==> p.command == "zsh"@ && p.args.len() == 2
            && p.args[0] == "-lc"@
            && exists|i: int| 0 <= i < projects.len() && projects[i].id@ == req.project_id@ && p.cwd == projects[i].workspace_root@,
{
    match crate::app_runtime::project_index(projects, req.project_id@) {
        Some(pi) => {
            lemma_first_match_some(projects, |d: DetectedProject| d.id@ == req.project_id@);
            assert(projects[pi].id@ == req.project_id@);
        },
        None => {},
    }
}

/// Removing a URL that was just bookmarked, when it was not bookmarked before, gives back
/// the bookmarks as they were.
pub proof fn removing_new_bookmark_restores_bookmarks(s: Seq<BookmarkView>, b: BookmarkView)
    requires
        !has_url(s, b.0),
    ensures
        s.push(b).filter(|x: BookmarkView| x.0 != b.0) == s,
{
    let p = |x: BookmarkView| x.0 != b.0;
    assert(s.push(b).drop_last() =~= s);
    reveal_with_fuel(Seq::<BookmarkView>::filter, 1);
    assert forall|i: int| 0 <= i < s.len() implies p(s[i]) by {
        if !p(s[i]) {
            assert(s[i].0 == b.0);
        }
    }
    lemma_filter_keeps_all(s, p);
}

/// Filtering by a predicate that every element satisfies changes nothing.
proof fn lemma_filter_keeps_all(s: Seq<BookmarkView>, p: spec_fn(BookmarkView) -> bool)
    requires
        forall|i: int| 0 <= i < s.len() ==> p(s[i]),
    ensures
        s.filter(p) == s,
    decreases s.len(),
{
    reveal_with_fuel(Seq::<BookmarkView>::filter, 1);
    if s.len() > 0 {
        lemma_filter_keeps_all(s.drop_last(), p);
        assert(s.drop_last().push(s.last()) =~= s);
    } else {
        assert(s.filter(p) =~= s);
    }
}

/// Once a URL is removed from the bookmarks, it is not bookmarked.
pub proof fn removed_url_is_not_bookmarked(s: Seq<BookmarkView>, url: Seq<char>)
    ensures
        !has_url(s.filter(|x: BookmarkView| x.0 != url), url),
{
    let p = |x: BookmarkView| x.0 != url;
    let f = s.filter(p);
    s.filter_lemma(p);
    assert forall|i: int| 0 <= i < f.len() implies f[i].0 != url by {
        assert(p(f[i]));
    }
}

/// Reopening right after closing a tab gives back that tab and the earlier closed tabs as they
/// were kept.
pub proof fn reopening_gives_back_last_closed_tab(closed: Seq<ClosedTab>, tab: ClosedTab)
    ensures
        ({
            let kept = if closed.len() + 1 > MAX_CLOSED_TABS { closed.push(tab).drop_first() } else { closed.push(tab) };
            &&& kept.len() > 0
            &&& kept.last() == tab
            &&& kept.drop_last() == (if closed.len() + 1 > MAX_CLOSED_TABS { closed.drop_first() } else { closed })
        }),
{
    if closed.len() + 1 > MAX_CLOSED_TABS {
        assert(closed.push(tab).drop_first().drop_last() =~= closed.drop_first());
    } else {
        assert(closed.push(tab).drop_last() =~= closed);
    }
}

/// In a list of `n` rows, moving the selection down and then up (or up and then down) comes
/// back to the row it started on.
pub proof fn selection_moves_undo_each_other(n: int, sel: int)
    requires
        0 <= sel < n,
    ensures
        ({
            let down = (sel + 1) % n;
            (if down == 0 { n - 1 } else { down - 1 }) == sel
        }),
        ({
            let up = if sel == 0 { n - 1 } else { sel - 1 };
            (up + 1) % n == sel
        }),
{
    if sel + 1 < n {
        vstd::arithmetic::div_mod::lemma_small_mod((sel + 1) as nat, n as nat);
    } else {
        vstd::arithmetic::div_mod::lemma_mod_self_0(n);
    }
    let up = if sel == 0 { n - 1 } else { sel - 1 };
    if up + 1 < n {
        vstd::arithmetic::div_mod::lemma_small_mod((up + 1) as nat, n as nat);
    } else {
        vstd::arithmetic::div_mod::lemma_mod_self_0(n);
    }
}

/// The services page always settles on a registered provider, and on the requested one
/// whenever it is registered.
pub proof fn services_page_settles_on_registered_provider(
    providers: Seq<ServiceProviderDescriptor>,
    initial: Option<ServicesPageState>,
)
    requires
        providers.len() > 0,
    ensures
        exists|i: int| 0 <= i < providers.len() && providers[i] == chosen_provider(providers, initial),
        match initial {
            Some(st) => (exists|i: int| 0 <= i < providers.len() && providers[i].id@ == st.provider_id@)
                ==> chosen_provider(providers, initial).id@ == st.provider_id@,
            None => true,
        },
{
    match initial {
        Some(st) => {
            let p = |d: ServiceProviderDescriptor| d.id@ == st.provider_id@;
            lemma_first_match_some(providers, p);
            match provider_index(providers, st.provider_id@) {
                Some(i) => {
                    assert(providers[i] == chosen_provider(providers, initial));
                },
                None => {
                    assert(providers[0] == chosen_provider(providers, initial));
                    assert forall|i: int| 0 <= i < providers.len() implies providers[i].id@ != st.provider_id@ by {
                        if providers[i].id@ == st.provider_id@ {
                            assert(p(providers[i]));
                        }
                    }
                },
            }
        },
        None => {
            assert(providers[0] == chosen_provider(providers, initial));
        },
    }
}

/// Once apps are listed, the services page selects a listed app whenever any is listed and
/// none otherwise; an app that disappeared is never kept selected.
pub proof fn app_selection_stays_listed(ids: Seq<Seq<char>>, selected: Option<Seq<char>>)
    ensures
        match reselected_app(ids, selected) {
            Some(id) => exists|i: int| 0 <= i < ids.len() && ids[i] == id,
            None => ids.len() == 0,
        },
{
    if ids.len() > 0 {
        assert(ids[0] == ids[0]);
    }
}

/// Command and control shortcuts always go to the app, whatever the page is doing.
pub proof fn shortcuts_go_to_the_app(k: Keystroke, editable: bool, composing: bool)
    requires
        k.modifiers.platform || k.modifiers.control,
    ensures
        spec_key_dispatch(k, editable, composing) == BrowserKeyDispatch::App,
{
}

/// While text is being composed, every key press that is not an app shortcut goes to the
/// page's text input.
pub proof fn composition_keeps_keys_in_text_input(k: Keystroke, editable: bool)
    requires
        !(k.modifiers.platform || k.modifiers.control || (k.modifiers.function && k.key_char is Some)),
    ensures
        spec_key_dispatch(k, editable, true) == BrowserKeyDispatch::TextInput,
{
}

/// The section a page settles on is one the provider lists, whenever its default is listed.
pub proof fn settled_section_is_listed(d: ServiceProviderDescriptor, requested: Seq<char>)
    requires
        has_section(d, d.shell.default_navigation_item_id@),
    ensures
        has_section(d, normalized_section(d, requested)),
{
}

/// A piece that occurs in `a` occurs at the same place in `a` followed by anything.
proof fn lemma_occurs_in_longer(a: Seq<char>, b: Seq<char>, p: Seq<char>, i: int)
    requires
        occurs_at(a, p, i),
    ensures
        occurs_at(a + b, p, i),
{
    assert((a + b).subrange(i, i + p.len()) =~= a.subrange(i, i + p.len()));
}

/// In `a + b + c`, the piece `b + c` starts right after `a`.
proof fn lemma_occurs_after(a: Seq<char>, b: Seq<char>, c: Seq<char>)
    ensures
        occurs_at(a + b + c, b + c, a.len() as int),
{
    assert((a + b + c).subrange(a.len() as int, (a.len() + b.len() + c.len()) as int) =~= b + c);
}

/// Running a target on a simulator of its project boots, builds for, installs on and launches
/// on that very simulator: the script names the requested device, quoted, in each of these
/// commands.
#[verifier::spinoff_prover]
#[verifier::rlimit(40)]
pub proof fn run_plans_target_the_requested_simulator(projects: Seq<DetectedProject>, req: ExecutionRequest, pi: int, did: Seq<char>)
    requires
        crate::app_runtime::project_index(projects, req.project_id@) == Some(pi),
        exists|t: int| 0 <= t < projects[pi].targets@.len() && (#[trigger] projects[pi].targets@[t]).id@ == req.target_id@,
        req.action == RuntimeAction::Run,
        projects[pi].capabilities.run is Available,
        req.device_id matches Some(d) && d@ == did,
        exists|i: int| 0 <= i < projects[pi].devices@.len() && (#[trigger] projects[pi].devices@[i]).id@ == did,
    ensures
        spec_execution_plan(projects, req) matches Ok(p) && p.args.len() == 2 && {
            let script = p.args[1];
            let sim = shell_quoted(did);
            &&& seq_contains_piece(script, "xcrun simctl boot "@ + sim)
            &&& seq_contains_piece(script, " -destination id="@ + sim)
            &&& seq_contains_piece(script, "xcrun simctl install "@ + sim)
            &&& seq_contains_piece(script, "xcrun simctl launch "@ + sim)
        },
{
    let project = projects[pi];
    let tp = |t: RuntimeTarget| t.id@ == req.target_id@;
    let dp = |d: RuntimeDevice| d.id@ == did;
    let ti0 = choose|t: int| 0 <= t < project.targets@.len() && (#[trigger] project.targets@[t]).id@ == req.target_id@;
    assert(tp(project.targets@[ti0]));
    lemma_first_match_some(project.targets@, tp);
    let di0 = choose|i: int| 0 <= i < project.devices@.len() && (#[trigger] project.devices@[i]).id@ == did;
    assert(dp(project.devices@[di0]));
    lemma_first_match_some(project.devices@, dp);
    let ti = crate::app_runtime::target_index(project.targets@, req.target_id@).unwrap();
    let di = crate::app_runtime::device_index(project.devices@, did).unwrap();
    assert(project.devices@[di].id@ == did);
    let target = project.targets@[ti].label@;
    let sel = spec_xcode_selector(project);
    let t = shell_quoted(target);
    let sim = shell_quoted(did);
    let data = shell_quoted(derived_data_dir(project.workspace_root@, target));
    let x0 = "set -euo pipefail\n"@ + "mkdir -p "@ + data + "\n"@ + "open -a Simulator\n"@;
    let x1 = x0 + "xcrun simctl boot "@ + sim;
    let x2 = x1 + " >/dev/null 2>&1 || true\n"@ + "xcrun simctl bootstatus "@ + sim + " -b\n"@
        + sel + " -scheme "@ + t;
    let x3 = x2 + " -destination id="@ + sim;
    let x4 = x3 + " -derivedDataPath "@ + data + " build\n"@
        + "app_path=\"$(find "@ + data + "/Build/Products -maxdepth 2 -name '*.app' -print -quit)\"\n"@
        + "if [ -z \"$app_path\" ]; then\n"@
        + "echo 'Glass could not find the built .app bundle.' >&2\n"@
        + "exit 1\n"@
        + "fi\n"@
        + "bundle_id=\"$(/usr/libexec/PlistBuddy -c 'Print :CFBundleIdentifier' \"$app_path/Info.plist\")\"\n"@;
    let x5 = x4 + "xcrun simctl install "@ + sim;
    let x6 = x5 + " \"$app_path\"\n"@;
    let x7 = x6 + "xcrun simctl launch "@ + sim;
    let script = x7 + " \"$bundle_id\"\n"@;
    assert(script == spec_run_script(sel, t, sim, data));
    let boot = "xcrun simctl boot "@ + sim;
    let dest = " -destination id="@ + sim;
    let install = "xcrun simctl install "@ + sim;
    let launch = "xcrun simctl launch "@ + sim;
    lemma_occurs_after(x0, "xcrun simctl boot "@, sim);
    lemma_occurs_in_longer(x1, x2.subrange(x1.len() as int, x2.len() as int), boot, x0.len() as int);
    assert(x1 + x2.subrange(x1.len() as int, x2.len() as int) =~= x2);
    lemma_occurs_in_longer(x2, " -destination id="@ + sim, boot, x0.len() as int);
    assert(x2 + (" -destination id="@ + sim) =~= x3);
    lemma_occurs_after(x2, " -destination id="@, sim);
    lemma_occurs_in_longer(x3, x5.subrange(x3.len() as int, x5.len() as int), boot, x0.len() as int);
    lemma_occurs_in_longer(x3, x5.subrange(x3.len() as int, x5.len() as int), dest, x2.len() as int);
    assert(x3 + x5.subrange(x3.len() as int, x5.len() as int) =~= x5);
    lemma_occurs_after(x4, "xcrun simctl install "@, sim);
    lemma_occurs_in_longer(x5, x7.subrange(x5.len() as int, x7.len() as int), boot, x0.len() as int);
    lemma_occurs_in_longer(x5, x7.subrange(x5.len() as int, x7.len() as int), dest, x2.len() as int);
    lemma_occurs_in_longer(x5, x7.subrange(x5.len() as int, x7.len() as int), install, x4.len() as int);
    assert(x5 + x7.subrange(x5.len() as int, x7.len() as int) =~= x7);
    lemma_occurs_after(x6, "xcrun simctl launch "@, sim);
    lemma_occurs_in_longer(x7, " \"$bundle_id\"\n"@, boot, x0.len() as int);
    lemma_occurs_in_longer(x7, " \"$bundle_id\"\n"@, dest, x2.len() as int);
    lemma_occurs_in_longer(x7, " \"$bundle_id\"\n"@, install, x4.len() as int);
    lemma_occurs_in_longer(x7, " \"$bundle_id\"\n"@, launch, x6.len() as int);
}

/// The input a flag of `asc auth login` takes its value from.
pub open spec fn login_flag_input(flag: Seq<char>) -> Option<Seq<char>> {
    if flag == "--name"@ {
        Some("profile_name"@)
    } else if flag == "--key-id"@ {
        Some("key_id"@)
    } else if flag == "--issuer-id"@ {
        Some("issuer_id"@)
    } else if flag == "--private-key"@ {
        Some("private_key_path"@)
    } else {
        None
    }
}

/// Logging in with all four inputs runs `asc auth login` with the four value flags, each
/// once, and each followed by the value of its own input.
pub proof fn login_flags_carry_their_own_inputs(auth: ServiceAuthActionRequest)
    requires
        auth.action == ServiceAuthAction::Authenticate,
        auth.input@.contains_key("profile_name"@),
        auth.input@.contains_key("key_id"@),
        auth.input@.contains_key("issuer_id"@),
        auth.input@.contains_key("private_key_path"@),
    ensures
        spec_asc_auth_action(auth) matches Ok(p) && p.args.len() >= 10
            && p.args[0] == "auth"@ && p.args[1] == "login"@
            && (forall|i: int| 2 <= i < 10 && i % 2 == 0 ==>
                (login_flag_input(#[trigger] p.args[i]) matches Some(key) && p.args[i + 1] == auth.input@[key]))
            && (forall|i: int, j: int| 2 <= i < j < 10 && i % 2 == 0 && j % 2 == 0 ==> #[trigger] p.args[i] != #[trigger] p.args[j]),
{
    reveal_strlit("--name");
    reveal_strlit("--key-id");
    reveal_strlit("--issuer-id");
    reveal_strlit("--private-key");
    let input = auth.input@;
    let p = spec_asc_auth_action(auth)->Ok_0;
    let head = seq![
        "auth"@, "login"@,
        "--name"@, input["profile_name"@],
        "--key-id"@, input["key_id"@],
        "--issuer-id"@, input["issuer_id"@],
        "--private-key"@, input["private_key_path"@],
    ];
    assert(p.args.subrange(0, 10) =~= head);
    assert forall|i: int| 2 <= i < 10 && i % 2 == 0 implies
        (login_flag_input(#[trigger] p.args[i]) matches Some(key) && p.args[i + 1] == input[key]) by {
        assert(p.args[i] == head[i]);
        assert(p.args[i + 1] == head[i + 1]);
        if i == 2 {} else if i == 4 {} else if i == 6 {} else { assert(i == 8); }
    }
    assert forall|i: int, j: int| 2 <= i < j < 10 && i % 2 == 0 && j % 2 == 0 implies #[trigger] p.args[i] != #[trigger] p.args[j] by {
        assert(p.args[i] == head[i]);
        assert(p.args[j] == head[j]);
    }
}

/// Typed text whose host is an IPv4 loopback address (first octet 127) is loaded over plain
/// `http`, with or without a port: the URL is `http://` followed by the text.
pub proof fn loopback_addresses_load_over_http(text: Seq<char>, host: Seq<char>, octets: (u8, u8, u8, u8), port: Option<u16>)
    requires
        !has_http_scheme(text),
        !crate::url_input::has_whitespace(text),
        crate::url_input::http_url_host(text) == Some((host, Some(octets), port)),
        octets.0 == 127,
    ensures
        spec_text_to_url(text) == "http://"@ + text,
{
}

/// Typed text whose host is an IPv4 address outside the loopback range, and not named
/// `localhost`, is loaded over `https`.
pub proof fn other_ipv4_addresses_load_over_https(text: Seq<char>, host: Seq<char>, octets: (u8, u8, u8, u8), port: Option<u16>)
    requires
        !has_http_scheme(text),
        !crate::url_input::has_whitespace(text),
        crate::url_input::http_url_host(text) == Some((host, Some(octets), port)),
        octets.0 != 127,
        !crate::url_input::eq_ignore_ascii_case(host, "localhost"@),
    ensures
        spec_text_to_url(text) == "https://"@ + text,
{
}

/// An address row of the suggestion list leads where the address bar sends the same text.
pub proof fn address_rows_lead_where_the_address_bar_does(text: String)
    ensures
        spec_suggestion_url(OmniboxSuggestion::RawUrl(text)) == spec_text_to_url(text@),
        forall|title: String| #[trigger] spec_suggestion_url(OmniboxSuggestion::HistoryItem { url: text, title }) == text@,
{
}

/// A page with an editable element still gets the editing and navigation keys that type no
/// character (when no app shortcut modifier is held and nothing is being composed); every
/// other such key goes to the text input.
pub proof fn navigation_keys_reach_the_page(k: Keystroke)
    requires
        k.key_char is None,
        !k.modifiers.platform,
        !k.modifiers.control,
    ensures
        (spec_key_dispatch(k, true, false) == BrowserKeyDispatch::Browser) <==> {
            let key = k.key@;
            ||| key == "enter"@ ||| key == "backspace"@ ||| key == "tab"@ ||| key == "delete"@
            ||| key == "escape"@ ||| key == "space"@ ||| key == "left"@ ||| key == "right"@
            ||| key == "up"@ ||| key == "down"@ ||| key == "home"@ ||| key == "end"@
            ||| key == "pageup"@ ||| key == "pagedown"@
            ||| key == "f1"@ ||| key == "f2"@ ||| key == "f3"@ ||| key == "f4"@ ||| key == "f5"@
            ||| key == "f6"@ ||| key == "f7"@ ||| key == "f8"@ ||| key == "f9"@ ||| key == "f10"@
            ||| key == "f11"@ ||| key == "f12"@
        },
        spec_key_dispatch(k, true, false) != BrowserKeyDispatch::App,
{
    let keys = crate::text_input::browser_keys();
    let key = k.key@;
    if keys.contains(key) {
        let i = choose|i: int| 0 <= i < keys.len() && keys[i] == key;
        assert(0 <= i < 26);
        if i == 0 {} else if i == 1 {} else if i == 2 {} else if i == 3 {} else if i == 4 {}
        else if i == 5 {} else if i == 6 {} else if i == 7 {} else if i == 8 {} else if i == 9 {}
        else if i == 10 {} else if i == 11 {} else if i == 12 {} else if i == 13 {} else if i == 14 {}
        else if i == 15 {} else if i == 16 {} else if i == 17 {} else if i == 18 {} else if i == 19 {}
        else if i == 20 {} else if i == 21 {} else if i == 22 {} else if i == 23 {} else if i == 24 {}
        else { assert(i == 25); }
    } else {
        assert(keys[0] == "enter"@);
        assert(keys[1] == "backspace"@);
        assert(keys[2] == "tab"@);
        assert(keys[3] == "delete"@);
        assert(keys[4] == "escape"@);
        assert(keys[5] == "space"@);
        assert(keys[6] == "left"@);
        assert(keys[7] == "right"@);
        assert(keys[8] == "up"@);
        assert(keys[9] == "down"@);
        assert(keys[10] == "home"@);
        assert(keys[11] == "end"@);
        assert(keys[12] == "pageup"@);
        assert(keys[13] == "pagedown"@);
        assert(keys[14] == "f1"@);
        assert(keys[15] == "f2"@);
        assert(keys[16] == "f3"@);
        assert(keys[17] == "f4"@);
        assert(keys[18] == "f5"@);
        assert(keys[19] == "f6"@);
        assert(keys[20] == "f7"@);
        assert(keys[21] == "f8"@);
        assert(keys[22] == "f9"@);
        assert(keys[23] == "f10"@);
        assert(keys[24] == "f11"@);
        assert(keys[25] == "f12"@);
    }
}

/// Typed text whose host is `localhost`, in any letter case, is loaded over plain `http`.
pub proof fn localhost_loads_over_http(text: Seq<char>, host: Seq<char>, ipv4: Option<(u8, u8, u8, u8)>, port: Option<u16>)
    requires
        !has_http_scheme(text),
        !crate::url_input::has_whitespace(text),
        crate::url_input::http_url_host(text) == Some((host, ipv4, port)),
        crate::url_input::eq_ignore_ascii_case(host, "localhost"@),
    ensures
        spec_text_to_url(text) == "http://"@ + text,
{
}

/// Running a target needs a device of its project: without one the request is refused as
/// needing a device, and with an identifier no device of the project has, as naming an
/// unknown device.
pub proof fn run_requests_need_a_known_device(projects: Seq<DetectedProject>, req: ExecutionRequest, pi: int)
    requires
        crate::app_runtime::project_index(projects, req.project_id@) == Some(pi),
        exists|t: int| 0 <= t < projects[pi].targets@.len() && (#[trigger] projects[pi].targets@[t]).id@ == req.target_id@,
        req.action == RuntimeAction::Run,
        projects[pi].capabilities.run is Available,
    ensures
        req.device_id is None ==> spec_execution_plan(projects, req) == Err::<crate::app_runtime::ExecutionPlanView, RuntimeErrorView>(RuntimeErrorView::DeviceRequired),
        req.device_id matches Some(d) ==> (forall|i: int| 0 <= i < projects[pi].devices@.len() ==> (#[trigger] projects[pi].devices@[i]).id@ != d@)
            ==> spec_execution_plan(projects, req) == Err::<crate::app_runtime::ExecutionPlanView, RuntimeErrorView>(RuntimeErrorView::DeviceNotFound(d@)),
{
    let project = projects[pi];
    let tp = |t: RuntimeTarget| t.id@ == req.target_id@;
    let ti0 = choose|t: int| 0 <= t < project.targets@.len() && (#[trigger] project.targets@[t]).id@ == req.target_id@;
    assert(tp(project.targets@[ti0]));
    lemma_first_match_some(project.targets@, tp);
    if let Some(d) = req.device_id {
        if forall|i: int| 0 <= i < project.devices@.len() ==> (#[trigger] project.devices@[i]).id@ != d@ {
            crate::search::lemma_first_match_absent(project.devices@, |x: RuntimeDevice| x.id@ == d@);
        }
    }
}

} // verus!
