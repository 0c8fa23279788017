//! The menus: the profile choices of the Backend menu, what a menu or tray
//! item asks for, and which page addresses stay inside the window.

use vstd::prelude::*;
use crate::text::{same_text, starts_with_text};

verus! {

/// The prefix of every profile item's id.
pub open spec fn profile_prefix() -> Seq<char> {
    "profile:"@
}

/// An item of the profile choices.
pub struct ProfileItem {
    pub id: String,
    pub label: String,
    pub checked: bool,
}

/// What a profile item shows, as text.
pub struct ProfileItemView {
    pub id: Seq<char>,
    pub label: Seq<char>,
    pub checked: bool,
}

impl View for ProfileItem {
    type V = ProfileItemView;

    open spec fn view(&self) -> ProfileItemView {
        ProfileItemView { id: self.id@, label: self.label@, checked: self.checked }
    }
}

/// The item for running without a profile: checked when none is selected.
pub open spec fn default_item(selected: Option<Seq<char>>) -> ProfileItemView {
    ProfileItemView {
        id: profile_prefix(),
        label: "Default (no profile)"@,
        checked: selected is None,
    }
}

/// The item for profile `p`: checked when `p` is the selected profile.
pub open spec fn named_item(selected: Option<Seq<char>>, p: Seq<char>) -> ProfileItemView {
    ProfileItemView { id: profile_prefix() + p, label: p, checked: selected == Some(p) }
}

/// The profile choices: the default item, then one item per profile, in order.
pub open spec fn profile_items(selected: Option<Seq<char>>, profiles: Seq<Seq<char>>) -> Seq<ProfileItemView> {
    seq![default_item(selected)] + profiles.map_values(|p: Seq<char>| named_item(selected, p))
}

/// The characters of an optional text.
pub open spec fn opt_view(o: Option<String>) -> Option<Seq<char>> {
    match o {
        Some(s) => Some(s@),
        None => None,
    }
}

/// Builds the profile choices of the Backend menu.
pub fn profile_menu(selected: &Option<String>, profiles: &Vec<String>) -> (r: Vec<ProfileItem>)
    ensures
        r@.map_values(|i: ProfileItem| i@) == profile_items(
            opt_view(*selected),
            crate::text::string_views(profiles@),
        ),
        r@.len() == profiles@.len() + 1,
        r@[0].id@ == "profile:"@,
        r@[0].label@ == "Default (no profile)"@,
        r@[0].checked == (*selected is None),
        forall|k: int|
            #![trigger r@[k + 1]]
            0 <= k < profiles@.len() ==> {
                &&& r@[k + 1].id@ == "profile:"@ + profiles@[k]@
                &&& r@[k + 1].label@ == profiles@[k]@
                &&& r@[k + 1].checked == (opt_view(*selected) == Some(profiles@[k]@))
            },
{
    let ghost sel = opt_view(*selected);
    let ghost ps = crate::text::string_views(profiles@);
    let mut r: Vec<ProfileItem> = Vec::new();
    r.push(ProfileItem {
        id: "profile:".to_owned(),
        label: "Default (no profile)".to_owned(),
        checked: selected.is_none(),
    });
    let n = profiles.len();
    let mut k: usize = 0;
    while k < n
        invariant
            n == profiles.len(),
            k <= n,
            sel == opt_view(*selected),
            ps == crate::text::string_views(profiles@),
            r@.map_values(|i: ProfileItem| i@) == profile_items(sel, ps.subrange(0, k as int)),
        decreases n - k,
    {
        let p = &profiles[k];
        let checked = match selected {
            Some(s) => *s == *p,
            None => false,
        };
        let mut id = "profile:".to_owned();
        id.append(p.as_str());
        let ghost before = r@;
        r.push(ProfileItem { id, label: p.clone(), checked });
        proof {
            assert(ps.subrange(0, k + 1) =~= ps.subrange(0, k as int).push(p@));
            assert(r@.map_values(|i: ProfileItem| i@) =~= before.map_values(|i: ProfileItem| i@).push(
                named_item(sel, p@),
            ));
            assert(profile_items(sel, ps.subrange(0, k + 1)) =~= profile_items(
                sel,
                ps.subrange(0, k as int),
            ).push(named_item(sel, p@)));
        }
        k = k + 1;
    }
    assert(ps.subrange(0, n as int) =~= ps);
    proof {
        lemma_profile_items_label_each_profile(sel, ps);
        assert forall|k: int| #![trigger r@[k + 1]] 0 <= k < profiles@.len() implies {
            &&& r@[k + 1].id@ == "profile:"@ + profiles@[k]@
            &&& r@[k + 1].label@ == profiles@[k]@
            &&& r@[k + 1].checked == (opt_view(*selected) == Some(profiles@[k]@))
        } by {
            assert(r@.map_values(|i: ProfileItem| i@)[k + 1] == r@[k + 1]@);
            assert(ps[k] == profiles@[k]@);
        }
        assert(r@.map_values(|i: ProfileItem| i@)[0] == r@[0]@);
    }
    r
}

/// The profile choices are the default item followed by one item per profile, in
/// order: each profile's item is labelled with the profile's name and carries the id
/// `profile:` followed by that name, whatever the selection; an item is checked exactly
/// when its profile is the selected one, the default item exactly when none is.
pub proof fn lemma_profile_items_label_each_profile(selected: Option<Seq<char>>, profiles: Seq<Seq<char>>)
    ensures
        profile_items(selected, profiles).len() == profiles.len() + 1,
        profile_items(selected, profiles)[0].id == "profile:"@,
        profile_items(selected, profiles)[0].label == "Default (no profile)"@,
        profile_items(selected, profiles)[0].checked == (selected is None),
        forall|k: int|
            #![trigger profile_items(selected, profiles)[k + 1]]
            0 <= k < profiles.len() ==> {
                &&& profile_items(selected, profiles)[k + 1].label == profiles[k]
                &&& profile_items(selected, profiles)[k + 1].id == "profile:"@ + profiles[k]
                &&& profile_items(selected, profiles)[k + 1].checked == (selected == Some(profiles[k]))
            },
{
    let items = profile_items(selected, profiles);
    assert forall|k: int| #![trigger items[k + 1]] 0 <= k < profiles.len() implies {
        &&& items[k + 1].label == profiles[k]
        &&& items[k + 1].id == "profile:"@ + profiles[k]
        &&& items[k + 1].checked == (selected == Some(profiles[k]))
    } by {
        assert(items[k + 1] == named_item(selected, profiles[k]));
    }
}

} // verus!

verus! {

/// What a menu item of the application asks for.
pub enum MenuCommand {
    ZoomIn,
    ZoomOut,
    ActualSize,
    Reload,
    ToggleDevtools,
    RestartBackend,
    OpenInBrowser,
    /// Run the backend with this profile (`None`: without one).
    SelectProfile(Option<String>),
    /// An item that the application does not handle.
    Ignore,
}

/// A menu command, with its profile as text.
pub enum MenuCommandView {
    ZoomIn,
    ZoomOut,
    ActualSize,
    Reload,
    ToggleDevtools,
    RestartBackend,
    OpenInBrowser,
    SelectProfile(Option<Seq<char>>),
    Ignore,
}

impl View for MenuCommand {
    type V = MenuCommandView;

    open spec fn view(&self) -> MenuCommandView {
        match self {
            MenuCommand::ZoomIn => MenuCommandView::ZoomIn,
            MenuCommand::ZoomOut => MenuCommandView::ZoomOut,
            MenuCommand::ActualSize => MenuCommandView::ActualSize,
            MenuCommand::Reload => MenuCommandView::Reload,
            MenuCommand::ToggleDevtools => MenuCommandView::ToggleDevtools,
            MenuCommand::RestartBackend => MenuCommandView::RestartBackend,
            MenuCommand::OpenInBrowser => MenuCommandView::OpenInBrowser,
            MenuCommand::SelectProfile(p) => MenuCommandView::SelectProfile(opt_view(*p)),
            MenuCommand::Ignore => MenuCommandView::Ignore,
        }
    }
}

/// The profile that a profile item's id names, after its prefix: none when nothing follows it.
pub open spec fn selection_of(rest: Seq<char>) -> Option<Seq<char>> {
    if rest.len() == 0 {
        None
    } else {
        Some(rest)
    }
}

/// What the menu item with this id asks for.
pub open spec fn menu_command_of(id: Seq<char>) -> MenuCommandView {
    if id == "in"@ {
        MenuCommandView::ZoomIn
    } else if id == "out"@ {
        MenuCommandView::ZoomOut
    } else if id == "fit"@ {
        MenuCommandView::ActualSize
    } else if id == "reload"@ {
        MenuCommandView::Reload
    } else if id == "devtools"@ {
        MenuCommandView::ToggleDevtools
    } else if id == "restart-backend"@ {
        MenuCommandView::RestartBackend
    } else if id == "open-browser"@ {
        MenuCommandView::OpenInBrowser
    } else if profile_prefix().len() <= id.len() && id.subrange(0, profile_prefix().len() as int)
        == profile_prefix() {
        MenuCommandView::SelectProfile(selection_of(id.subrange(profile_prefix().len() as int, id.len() as int)))
    } else {
        MenuCommandView::Ignore
    }
}

/// Reads the id of a chosen menu item.
pub fn parse_menu_id(id: &str) -> (r: MenuCommand)
    ensures
        r@ == menu_command_of(id@),
        menu_ids_read_as_listed(id@, r@),
{
    proof {
        lemma_menu_ids(id@);
    }
    if same_text(id, "in") {
        MenuCommand::ZoomIn
    } else if same_text(id, "out") {
        MenuCommand::ZoomOut
    } else if same_text(id, "fit") {
        MenuCommand::ActualSize
    } else if same_text(id, "reload") {
        MenuCommand::Reload
    } else if same_text(id, "devtools") {
        MenuCommand::ToggleDevtools
    } else if same_text(id, "restart-backend") {
        MenuCommand::RestartBackend
    } else if same_text(id, "open-browser") {
        MenuCommand::OpenInBrowser
    } else if starts_with_text(id, "profile:") {
        proof {
            reveal_strlit("profile:");
        }
        let n = id.unicode_len();
        let rest = id.substring_char(8, n);
        if rest.is_empty() {
            MenuCommand::SelectProfile(None)
        } else {
            MenuCommand::SelectProfile(Some(rest.to_owned()))
        }
    } else {
        MenuCommand::Ignore
    }
}

/// What an item of the tray's menu asks for.
pub enum TrayCommand {
    Show,
    Quit,
    Ignore,
}

/// Reads the id of a chosen tray menu item.
pub fn parse_tray_id(id: &str) -> (r: TrayCommand)
    ensures
        id@ == "show"@ ==> r is Show,
        id@ == "quit"@ ==> r is Quit,
        id@ != "show"@ && id@ != "quit"@ ==> r is Ignore,
{
    proof {
        reveal_strlit("show");
        reveal_strlit("quit");
        assert("show"@[0] != "quit"@[0]);
    }
    if same_text(id, "show") {
        TrayCommand::Show
    } else if same_text(id, "quit") {
        TrayCommand::Quit
    } else {
        TrayCommand::Ignore
    }
}

/// A page address, as far as the window's navigation guard reads it.
pub struct NavTarget {
    pub host: Option<String>,
    pub scheme: String,
}

/// Whether a page stays in the window: the loopback and app hosts, or an app scheme.
pub open spec fn is_local_spec(host: Option<Seq<char>>, scheme: Seq<char>) -> bool {
    match host {
        Some(h) => h == "127.0.0.1"@ || h == "localhost"@ || h == "tauri.localhost"@
            || ("tauri"@.len() <= scheme.len() && scheme.subrange(0, "tauri"@.len() as int) == "tauri"@),
        None => "tauri"@.len() <= scheme.len() && scheme.subrange(0, "tauri"@.len() as int) == "tauri"@,
    }
}

/// Whether the window may navigate to `target` itself; other pages open in the browser.
pub fn is_local(target: &NavTarget) -> (r: bool)
    ensures
        r == is_local_spec(opt_view(target.host), target.scheme@),
        r <==> (opt_view(target.host) == Some("127.0.0.1"@) || opt_view(target.host) == Some("localhost"@)
            || opt_view(target.host) == Some("tauri.localhost"@) || ("tauri"@.len() <= target.scheme@.len()
            && target.scheme@.subrange(0, "tauri"@.len() as int) == "tauri"@)),
{
    let local_host = match &target.host {
        Some(h) => same_text(h.as_str(), "127.0.0.1") || same_text(h.as_str(), "localhost")
            || same_text(h.as_str(), "tauri.localhost"),
        None => false,
    };
    local_host || starts_with_text(target.scheme.as_str(), "tauri")
}

} // verus!

verus! {

/// The selection that choosing item `k` of the profile choices makes.
pub open spec fn item_selection(profiles: Seq<Seq<char>>, k: int) -> Option<Seq<char>> {
    if k == 0 {
        None
    } else {
        Some(profiles[k - 1])
    }
}

/// Choosing an item of the profile choices selects that item's profile: the id an
/// item carries reads back, as a menu command, as the selection of its profile
/// (of none for the default item), for profiles with non-empty names.
pub proof fn lemma_profile_item_selects_its_profile(
    selected: Option<Seq<char>>,
    profiles: Seq<Seq<char>>,
    k: int,
)
    requires
        0 <= k <= profiles.len(),
        forall|j: int| 0 <= j < profiles.len() ==> #[trigger] profiles[j].len() > 0,
    ensures
        menu_command_of(profile_items(selected, profiles)[k].id) == MenuCommandView::SelectProfile(
            item_selection(profiles, k),
        ),
{
    reveal_strlit("profile:");
    reveal_strlit("in");
    reveal_strlit("out");
    reveal_strlit("fit");
    reveal_strlit("reload");
    reveal_strlit("devtools");
    reveal_strlit("restart-backend");
    reveal_strlit("open-browser");
    let items = profile_items(selected, profiles);
    let id = items[k].id;
    if k == 0 {
        assert(id == profile_prefix());
    } else {
        assert(items[k] == named_item(selected, profiles[k - 1]));
        assert(id == profile_prefix() + profiles[k - 1]);
    }
    assert(id[0] == 'p');
    assert(id.len() >= 8);
    assert(id != "in"@);
    assert(id != "out"@);
    assert(id != "fit"@);
    assert(id != "reload"@);
    assert(id != "devtools"@ ) by {
        assert("devtools"@[0] == 'd');
    }
    assert(id != "restart-backend"@) by {
        assert("restart-backend"@[0] == 'r');
    }
    assert(id != "open-browser"@) by {
        assert("open-browser"@[0] == 'o');
    }
    assert(id.subrange(0, 8) =~= profile_prefix());
    if k == 0 {
        assert(id.subrange(8, id.len() as int) =~= Seq::<char>::empty());
    } else {
        assert(id.subrange(8, id.len() as int) =~= profiles[k - 1]);
    }
}

/// Among distinct profiles, once the profile of item `k` is selected, the rebuilt
/// choices check item `k` and no other.
pub proof fn lemma_selection_checks_only_its_item(profiles: Seq<Seq<char>>, k: int, j: int)
    requires
        0 <= k <= profiles.len(),
        0 <= j <= profiles.len(),
        forall|a: int, b: int|
            0 <= a < b < profiles.len() ==> #[trigger] profiles[a] != #[trigger] profiles[b],
    ensures
        profile_items(item_selection(profiles, k), profiles)[j].checked <==> j == k,
{
    let sel = item_selection(profiles, k);
    let items = profile_items(sel, profiles);
    if j > 0 {
        assert(items[j] == named_item(sel, profiles[j - 1]));
        if k > 0 && k != j {
            if k < j {
                assert(profiles[k - 1] != profiles[j - 1]);
            } else {
                assert(profiles[j - 1] != profiles[k - 1]);
            }
        }
    }
}

} // verus!

verus! {

/// A page stays in the window exactly when its host is `127.0.0.1`, `localhost` or
/// `tauri.localhost`, whatever its scheme, or its scheme begins with `tauri`, whatever
/// its host. Every other page opens in the browser.
pub proof fn lemma_local_pages(host: Option<Seq<char>>, scheme: Seq<char>)
    ensures
        is_local_spec(host, scheme) <==> (host == Some("127.0.0.1"@) || host == Some("localhost"@)
            || host == Some("tauri.localhost"@) || ("tauri"@.len() <= scheme.len() && scheme.subrange(
            0,
            "tauri"@.len() as int,
        ) == "tauri"@)),
{
}

} // verus!

verus! {

/// How each menu id reads: the View menu's and the Backend menu's fixed items as their
/// commands; `profile:` followed by a name as the selection of that profile, and alone
/// as the selection of no profile; every other id as nothing to do.
pub open spec fn menu_ids_read_as_listed(id: Seq<char>, c: MenuCommandView) -> bool {
    &&& id == "in"@ ==> c == MenuCommandView::ZoomIn
    &&& id == "out"@ ==> c == MenuCommandView::ZoomOut
    &&& id == "fit"@ ==> c == MenuCommandView::ActualSize
    &&& id == "reload"@ ==> c == MenuCommandView::Reload
    &&& id == "devtools"@ ==> c == MenuCommandView::ToggleDevtools
    &&& id == "restart-backend"@ ==> c == MenuCommandView::RestartBackend
    &&& id == "open-browser"@ ==> c == MenuCommandView::OpenInBrowser
    &&& id == "profile:"@ ==> c == MenuCommandView::SelectProfile(None)
    &&& forall|p: Seq<char>| p.len() > 0 && id == "profile:"@ + p ==> c == MenuCommandView::SelectProfile(Some(p))
    &&& (id != "in"@ && id != "out"@ && id != "fit"@ && id != "reload"@ && id != "devtools"@ && id
        != "restart-backend"@ && id != "open-browser"@ && !(8 <= id.len() && id.subrange(0, 8) == "profile:"@))
        ==> c == MenuCommandView::Ignore
}

/// Every menu id reads as listed in `menu_ids_read_as_listed`.
pub proof fn lemma_menu_ids(id: Seq<char>)
    ensures
        menu_ids_read_as_listed(id, menu_command_of(id)),
{
    reveal_strlit("profile:");
    reveal_strlit("in");
    reveal_strlit("out");
    reveal_strlit("fit");
    reveal_strlit("reload");
    reveal_strlit("devtools");
    reveal_strlit("restart-backend");
    reveal_strlit("open-browser");
    assert("out"@ != "fit"@) by {
        assert("out"@[0] != "fit"@[0]);
    }
    assert("devtools"@ != "profile:"@) by {
        assert("devtools"@[0] != "profile:"@[0]);
    }
    if 8 <= id.len() && id.subrange(0, 8) == "profile:"@ {
        assert(id[0] == 'p') by {
            assert(id.subrange(0, 8)[0] == id[0]);
        }
        assert(id != "in"@);
        assert(id != "out"@);
        assert(id != "fit"@);
        assert(id != "reload"@);
        assert(id != "devtools"@) by {
            assert("devtools"@[0] == 'd');
        }
        assert(id != "restart-backend"@) by {
            assert("restart-backend"@[0] == 'r');
        }
        assert(id != "open-browser"@) by {
            assert("open-browser"@[0] == 'o');
        }
        assert forall|p: Seq<char>| p.len() > 0 && id == "profile:"@ + p implies menu_command_of(id)
            == MenuCommandView::SelectProfile(Some(p)) by {
            assert(id.subrange(8, id.len() as int) =~= p);
        }
        if id == "profile:"@ {
            assert(id.subrange(8, id.len() as int) =~= Seq::<char>::empty());
        }
    } else {
        assert forall|p: Seq<char>| p.len() > 0 && id == "profile:"@ + p implies menu_command_of(id)
            == MenuCommandView::SelectProfile(Some(p)) by {
            assert(id.subrange(0, 8) =~= "profile:"@);
        }
        if id == "profile:"@ {
            assert(id.subrange(0, 8) =~= "profile:"@);
        }
    }
}

} // verus!
