//! Profiles of applications: which there are, which can be added, and what the
//! profile bar shows.

use vstd::prelude::*;

use crate::config::row_of;
use crate::data::Data;
use crate::foreground::{profiles_of, seen_as, AppProfile, AppProfileModel};
use crate::keyed::is_among;
use crate::state::{current_key, editing, AppState, ForegroundApp, ForegroundAppModel, StateModel};
use crate::text::{
    chars_of, contains_text, ends_with, is_white, is_whitespace, lex_lt, lowercase, occurs,
    starts_with, text_before, text_of, to_lowercase, trim, trimmed,
};

verus! {

/// How tall a row of an application is, in pixels.
pub const APP_ROW_HEIGHT: u32 = 44;

/// How many rows of applications are visible at once.
pub const VISIBLE_APP_ROWS: usize = 6;

/// What kind of name an application goes by.
#[derive(Clone, Copy, Debug, PartialEq, Eq, Structural)]
pub enum IdentityKind {
    /// A macOS application bundle identifier.
    MacBundleIdentifier,
    /// The name of a desktop file.
    LinuxDesktopId,
    /// The class of an X11 window.
    LinuxStartupWmClass,
    /// What a Wayland compositor calls it.
    LinuxWaylandAppId,
    /// The path of a Windows executable.
    WindowsExecutablePath,
    /// The file name of a Windows executable.
    WindowsExecutableName,
}

impl DeepView for IdentityKind {
    type V = IdentityKind;

    open spec fn deep_view(&self) -> IdentityKind {
        *self
    }
}

impl Data for IdentityKind {
    fn duplicate(&self) -> (r: Self) {
        *self
    }

    fn same(&self, other: &Self) -> (r: bool) {
        *self == *other
    }
}

/// A name that an application goes by.
#[derive(Clone, Debug, PartialEq, Eq)]
pub struct ApplicationIdentity {
    pub kind: IdentityKind,
    pub value: String,
}

/// What a [`ApplicationIdentity`] holds.
pub ghost struct ApplicationIdentityModel {
    pub kind: IdentityKind,
    pub value: Seq<char>,
}

impl DeepView for ApplicationIdentity {
    type V = ApplicationIdentityModel;

    open spec fn deep_view(&self) -> ApplicationIdentityModel {
        ApplicationIdentityModel {
            kind: self.kind.deep_view(),
            value: self.value.deep_view(),
        }
    }
}

impl Data for ApplicationIdentity {
    fn duplicate(&self) -> (r: Self) {
        ApplicationIdentity {
            kind: self.kind.duplicate(),
            value: self.value.duplicate(),
        }
    }

    fn same(&self, other: &Self) -> (r: bool) {
        self.kind.same(&other.kind)
            && self.value.same(&other.value)
    }
}

/// An application that is installed.
#[derive(Clone, Debug, PartialEq, Eq)]
pub struct Application {
    pub name: String,
    pub identities: Vec<ApplicationIdentity>,
}

/// What a [`Application`] holds.
pub ghost struct ApplicationModel {
    pub name: Seq<char>,
    pub identities: Seq<ApplicationIdentityModel>,
}

impl DeepView for Application {
    type V = ApplicationModel;

    open spec fn deep_view(&self) -> ApplicationModel {
        ApplicationModel {
            name: self.name.deep_view(),
            identities: self.identities.deep_view(),
        }
    }
}

impl Data for Application {
    fn duplicate(&self) -> (r: Self) {
        Application {
            name: self.name.duplicate(),
            identities: self.identities.duplicate(),
        }
    }

    fn same(&self, other: &Self) -> (r: bool) {
        self.name.same(&other.name)
            && self.identities.same(&other.identities)
    }
}

/// A profile that can be opened.
#[derive(Clone, Debug, PartialEq, Eq)]
pub struct ProfileChoice {
    /// What names the application.
    pub app: String,
    /// What it is called.
    pub name: String,
    pub override_count: usize,
    /// Whether it is saved already.
    pub persisted: bool,
}

/// What a [`ProfileChoice`] holds.
pub ghost struct ProfileChoiceModel {
    pub app: Seq<char>,
    pub name: Seq<char>,
    pub override_count: usize,
    pub persisted: bool,
}

impl DeepView for ProfileChoice {
    type V = ProfileChoiceModel;

    open spec fn deep_view(&self) -> ProfileChoiceModel {
        ProfileChoiceModel {
            app: self.app.deep_view(),
            name: self.name.deep_view(),
            override_count: self.override_count.deep_view(),
            persisted: self.persisted.deep_view(),
        }
    }
}

impl Data for ProfileChoice {
    fn duplicate(&self) -> (r: Self) {
        ProfileChoice {
            app: self.app.duplicate(),
            name: self.name.duplicate(),
            override_count: self.override_count.duplicate(),
            persisted: self.persisted.duplicate(),
        }
    }

    fn same(&self, other: &Self) -> (r: bool) {
        self.app.same(&other.app)
            && self.name.same(&other.name)
            && self.override_count.same(&other.override_count)
            && self.persisted.same(&other.persisted)
    }
}

/// The desktop that this runs on.
#[derive(Clone, Debug, PartialEq, Eq)]
pub enum Host {
    MacOs,
    Windows,
    Linux {
        /// What the desktop calls itself; empty if it does not say.
        desktop: String,
        /// The type of the session, if it is told.
        session: Option<String>,
        /// Whether there is a Wayland display.
        wayland: bool,
    },
}

/// Whether a name is one by which a window tells its application.
pub open spec fn is_runtime_name(kind: IdentityKind) -> bool {
    kind == IdentityKind::LinuxStartupWmClass || kind == IdentityKind::LinuxWaylandAppId
}

/// The kind of name that the windows of a host tell their application by.
pub open spec fn preferred_kind(host: Host, runtime: Option<IdentityKind>) -> IdentityKind {
    match host {
        Host::MacOs => IdentityKind::MacBundleIdentifier,
        Host::Windows => IdentityKind::WindowsExecutablePath,
        Host::Linux { desktop, session, wayland } => if runtime is Some && is_runtime_name(
            runtime->0,
        ) {
            runtime->0
        } else if session.deep_view() == Some("x11"@) || !wayland || occurs(
            "gnome"@,
            lowercase(desktop@),
        ) {
            IdentityKind::LinuxStartupWmClass
        } else {
            IdentityKind::LinuxWaylandAppId
        },
    }
}

/// The kind of name that the windows of a host tell their application by: that
/// of the window in front, where it says, and else what the desktop is known
/// for.
pub fn preferred_identity_kind(host: &Host, runtime: Option<IdentityKind>) -> (r: IdentityKind)
    ensures
        r == preferred_kind(*host, runtime),
{
    match host {
        Host::MacOs => IdentityKind::MacBundleIdentifier,
        Host::Windows => IdentityKind::WindowsExecutablePath,
        Host::Linux { desktop, session, wayland } => {
            match runtime {
                Some(kind) => {
                    if kind == IdentityKind::LinuxStartupWmClass || kind
                        == IdentityKind::LinuxWaylandAppId {
                        return kind;
                    }
                },
                None => {},
            }
            let desktop = to_lowercase(desktop.as_str());
            let x11 = match session {
                Some(session) => crate::text::same_text(session.as_str(), "x11"),
                None => false,
            } || !*wayland;
            if x11 || contains_text(desktop.as_str(), "gnome") {
                IdentityKind::LinuxStartupWmClass
            } else {
                IdentityKind::LinuxWaylandAppId
            }
        },
    }
}

/// The first name that was observed.
pub open spec fn observed_name(
    names: Seq<ApplicationIdentityModel>,
    observed: Seq<Seq<char>>,
) -> Option<Seq<char>>
    decreases names.len(),
{
    if names.len() == 0 {
        None
    } else {
        match observed_name(names.drop_last(), observed) {
            Some(name) => Some(name),
            None => if observed.contains(names.last().value) {
                Some(names.last().value)
            } else {
                None
            },
        }
    }
}

/// The first name of a kind.
pub open spec fn name_of_kind(
    names: Seq<ApplicationIdentityModel>,
    kind: IdentityKind,
) -> Option<Seq<char>>
    decreases names.len(),
{
    if names.len() == 0 {
        None
    } else {
        match name_of_kind(names.drop_last(), kind) {
            Some(name) => Some(name),
            None => if names.last().kind == kind {
                Some(names.last().value)
            } else {
                None
            },
        }
    }
}

/// The name that an application is to be matched by: one that was observed;
/// else one of the preferred kind; else, for an application that does not tell
/// its window class, the name of its desktop file.
pub open spec fn matching_name(
    names: Seq<ApplicationIdentityModel>,
    observed: Seq<Seq<char>>,
    preferred: IdentityKind,
) -> Option<Seq<char>> {
    match observed_name(names, observed) {
        Some(name) => Some(name),
        None => match name_of_kind(names, preferred) {
            Some(name) => Some(name),
            None => if preferred == IdentityKind::LinuxStartupWmClass {
                name_of_kind(names, IdentityKind::LinuxDesktopId)
            } else {
                None
            },
        },
    }
}

fn find_observed(names: &Vec<ApplicationIdentity>, observed: &Vec<String>) -> (r: Option<String>)
    ensures
        r.deep_view() == observed_name(names.deep_view(), observed.deep_view()),
{
    let ghost all = names.deep_view();
    let mut r: Option<String> = None;
    let mut i: usize = 0;
    proof {
        assert(all.take(0) =~= Seq::empty());
    }
    while i < names.len()
        invariant
            i <= names@.len(),
            all == names.deep_view(),
            r.deep_view() == observed_name(all.take(i as int), observed.deep_view()),
        decreases names@.len() - i,
    {
        let name = &names[i];
        proof {
            assert(all.take(i as int + 1).drop_last() =~= all.take(i as int));
            assert(all.take(i as int + 1).last() == name.deep_view());
        }
        if r.is_none() && is_among(&name.value, observed) {
            r = Some(name.value.duplicate());
        }
        i = i + 1;
    }
    proof {
        assert(all.take(all.len() as int) =~= all);
    }
    r
}

fn find_kind(names: &Vec<ApplicationIdentity>, kind: IdentityKind) -> (r: Option<String>)
    ensures
        r.deep_view() == name_of_kind(names.deep_view(), kind),
{
    let ghost all = names.deep_view();
    let mut r: Option<String> = None;
    let mut i: usize = 0;
    proof {
        assert(all.take(0) =~= Seq::empty());
    }
    while i < names.len()
        invariant
            i <= names@.len(),
            all == names.deep_view(),
            r.deep_view() == name_of_kind(all.take(i as int), kind),
        decreases names@.len() - i,
    {
        let name = &names[i];
        proof {
            assert(all.take(i as int + 1).drop_last() =~= all.take(i as int));
            assert(all.take(i as int + 1).last() == name.deep_view());
        }
        if r.is_none() && name.kind == kind {
            r = Some(name.value.duplicate());
        }
        i = i + 1;
    }
    proof {
        assert(all.take(all.len() as int) =~= all);
    }
    r
}

/// The name that an application is to be matched by.
pub fn identity_for_application(
    application: &Application,
    observed: &Vec<String>,
    preferred: IdentityKind,
) -> (r: Option<String>)
    ensures
        r.deep_view() == matching_name(
            application.deep_view().identities,
            observed.deep_view(),
            preferred,
        ),
{
    let seen = find_observed(&application.identities, observed);
    if seen.is_some() {
        return seen;
    }
    let usual = find_kind(&application.identities, preferred);
    if usual.is_some() {
        return usual;
    }
    if preferred == IdentityKind::LinuxStartupWmClass {
        find_kind(&application.identities, IdentityKind::LinuxDesktopId)
    } else {
        None
    }
}

/// Whether one profile is listed before another: by its name whatever its case,
/// and then, if so asked, by what names its application.
pub open spec fn is_ahead(a: ProfileChoiceModel, b: ProfileChoiceModel, by_app: bool) -> bool {
    lex_lt(lowercase(a.name), lowercase(b.name)) || (by_app && lowercase(a.name) == lowercase(
        b.name,
    ) && lex_lt(a.app, b.app))
}

fn ahead(a: &ProfileChoice, b: &ProfileChoice, by_app: bool) -> (r: bool)
    ensures
        r == is_ahead(a.deep_view(), b.deep_view(), by_app),
{
    let x = to_lowercase(a.name.as_str());
    let y = to_lowercase(b.name.as_str());
    text_before(x.as_str(), y.as_str()) || (by_app && x == y && text_before(
        a.app.as_str(),
        b.app.as_str(),
    ))
}

/// A list in order with one more profile, behind those it is not ahead of.
pub open spec fn with_choice(
    list: Seq<ProfileChoiceModel>,
    choice: ProfileChoiceModel,
    by_app: bool,
) -> Seq<ProfileChoiceModel>
    decreases list.len(),
{
    if list.len() == 0 || !is_ahead(choice, list.last(), by_app) {
        list.push(choice)
    } else {
        with_choice(list.drop_last(), choice, by_app).push(list.last())
    }
}

/// A list in order, those that are equal as they came.
pub open spec fn listed(list: Seq<ProfileChoiceModel>, by_app: bool) -> Seq<ProfileChoiceModel>
    decreases list.len(),
{
    if list.len() == 0 {
        list
    } else {
        with_choice(listed(list.drop_last(), by_app), list.last(), by_app)
    }
}

proof fn lemma_with_choice(
    list: Seq<ProfileChoiceModel>,
    tail: Seq<ProfileChoiceModel>,
    choice: ProfileChoiceModel,
    by_app: bool,
)
    requires
        forall|k: int| 0 <= k < tail.len() ==> is_ahead(choice, #[trigger] tail[k], by_app),
    ensures
        with_choice(list + tail, choice, by_app) == with_choice(list, choice, by_app) + tail,
    decreases tail.len(),
{
    if tail.len() == 0 {
        assert(list + tail =~= list);
        assert(with_choice(list, choice, by_app) + tail =~= with_choice(list, choice, by_app));
    } else {
        let rest = tail.drop_last();
        assert((list + tail).drop_last() =~= list + rest);
        assert((list + tail).last() == tail[tail.len() - 1]);
        lemma_with_choice(list, rest, choice, by_app);
        assert(with_choice(list, choice, by_app) + tail =~= (with_choice(list, choice, by_app)
            + rest).push(tail.last()));
    }
}

fn add_choice(list: &mut Vec<ProfileChoice>, choice: ProfileChoice, by_app: bool)
    ensures
        final(list).deep_view() == with_choice(old(list).deep_view(), choice.deep_view(), by_app),
{
    let ghost all = list.deep_view();
    let ghost x = choice.deep_view();
    let mut at: usize = list.len();
    proof {
        assert(all.take(at as int) =~= all);
        assert(all.skip(at as int) =~= Seq::empty());
    }
    while at > 0 && ahead(&choice, &list[at - 1], by_app)
        invariant
            at <= list@.len(),
            all == list.deep_view(),
            x == choice.deep_view(),
            forall|k: int| at <= k < all.len() ==> is_ahead(x, #[trigger] all[k], by_app),
        decreases at,
    {
        at = at - 1;
        proof {
            assert(all[at as int] == list@[at as int].deep_view());
        }
    }
    let ghost head = all.take(at as int);
    let ghost tail = all.skip(at as int);
    proof {
        assert(head + tail =~= all);
        assert forall|k: int| 0 <= k < tail.len() implies is_ahead(
            x,
            #[trigger] tail[k],
            by_app,
        ) by {
            assert(tail[k] == all[at + k]);
        }
        lemma_with_choice(head, tail, x, by_app);
        if at > 0 {
            assert(head.last() == list@[at - 1].deep_view());
        }
        assert(with_choice(head, x, by_app) == head.push(x));
    }
    let ghost was = list@;
    list.insert(at, choice);
    proof {
        assert(list.deep_view() =~= head.push(x) + tail) by {
            assert forall|i: int| 0 <= i < list@.len() implies #[trigger] list.deep_view()[i]
                == (head.push(x) + tail)[i] by {
                if i < at {
                    assert(list@[i] == was[i]);
                } else if i > at {
                    assert(list@[i] == was[i - 1]);
                }
            }
        }
    }
}

/// A list in order: by name whatever its case, and then, if so asked, by what
/// names the application; those that are equal as they came.
pub fn sort_profiles(list: Vec<ProfileChoice>, by_app: bool) -> (r: Vec<ProfileChoice>)
    ensures
        r.deep_view() == listed(list.deep_view(), by_app),
{
    let ghost all = list.deep_view();
    let mut r: Vec<ProfileChoice> = Vec::new();
    let mut i: usize = 0;
    proof {
        assert(all.take(0) =~= Seq::empty());
        assert(r.deep_view() =~= Seq::empty());
    }
    while i < list.len()
        invariant
            i <= list@.len(),
            all == list.deep_view(),
            r.deep_view() == listed(all.take(i as int), by_app),
        decreases list@.len() - i,
    {
        proof {
            assert(all.take(i as int + 1).drop_last() =~= all.take(i as int));
            assert(all.take(i as int + 1).last() == list@[i as int].deep_view());
        }
        add_choice(&mut r, list[i].duplicate(), by_app);
        i = i + 1;
    }
    proof {
        assert(all.take(all.len() as int) =~= all);
    }
    r
}

/// Whether a list holds an application.
pub open spec fn lists(list: Seq<ProfileChoiceModel>, app: Seq<char>) -> bool {
    exists|k: int| 0 <= k < list.len() && (#[trigger] list[k]).app == app
}

fn holds(list: &Vec<ProfileChoice>, app: &String) -> (r: bool)
    ensures
        r == lists(list.deep_view(), app@),
{
    let ghost all = list.deep_view();
    let mut i: usize = 0;
    while i < list.len()
        invariant
            i <= list@.len(),
            all == list.deep_view(),
            forall|k: int| 0 <= k < i ==> (#[trigger] all[k]).app != app@,
        decreases list@.len() - i,
    {
        proof {
            assert(all[i as int] == list@[i as int].deep_view());
        }
        if list[i].app == *app {
            return true;
        }
        i = i + 1;
    }
    false
}

/// A profile that an application could get.
pub open spec fn new_choice(app: Seq<char>, name: Seq<char>) -> ProfileChoiceModel {
    ProfileChoiceModel { app, name, override_count: 0, persisted: false }
}

/// The installed applications that could get a profile, each once, as they came.
pub open spec fn offered(
    applications: Seq<ApplicationModel>,
    observed: Seq<Seq<char>>,
    unavailable: Seq<Seq<char>>,
    preferred: IdentityKind,
) -> Seq<ProfileChoiceModel>
    decreases applications.len(),
{
    if applications.len() == 0 {
        Seq::empty()
    } else {
        let before = offered(applications.drop_last(), observed, unavailable, preferred);
        let application = applications.last();
        match matching_name(application.identities, observed, preferred) {
            Some(app) => if unavailable.contains(app) || lists(before, app) {
                before
            } else {
                before.push(new_choice(app, application.name))
            },
            None => before,
        }
    }
}

fn offer(
    applications: &Vec<Application>,
    observed: &Vec<String>,
    unavailable: &Vec<String>,
    preferred: IdentityKind,
) -> (r: Vec<ProfileChoice>)
    ensures
        r.deep_view() == offered(
            applications.deep_view(),
            observed.deep_view(),
            unavailable.deep_view(),
            preferred,
        ),
{
    let ghost all = applications.deep_view();
    let ghost o = observed.deep_view();
    let ghost u = unavailable.deep_view();
    let mut r: Vec<ProfileChoice> = Vec::new();
    let mut i: usize = 0;
    proof {
        assert(all.take(0) =~= Seq::empty());
        assert(r.deep_view() =~= Seq::empty());
    }
    while i < applications.len()
        invariant
            i <= applications@.len(),
            all == applications.deep_view(),
            o == observed.deep_view(),
            u == unavailable.deep_view(),
            r.deep_view() == offered(all.take(i as int), o, u, preferred),
        decreases applications@.len() - i,
    {
        let application = &applications[i];
        let ghost was = r.deep_view();
        proof {
            assert(all.take(i as int + 1).drop_last() =~= all.take(i as int));
            assert(all.take(i as int + 1).last() == application.deep_view());
        }
        match identity_for_application(application, observed, preferred) {
            Some(app) => {
                if !is_among(&app, unavailable) && !holds(&r, &app) {
                    r.push(
                        ProfileChoice {
                            app,
                            name: application.name.duplicate(),
                            override_count: 0,
                            persisted: false,
                        },
                    );
                    proof {
                        assert(r.deep_view() =~= was.push(
                            new_choice(app@, application.deep_view().name),
                        ));
                    }
                }
            },
            None => {},
        }
        i = i + 1;
    }
    proof {
        assert(all.take(all.len() as int) =~= all);
    }
    r
}

/// What is known of the installed applications.
#[derive(Clone, Debug, PartialEq, Eq)]
pub enum CatalogLoad {
    Loading,
    Ready(Vec<Application>),
    Failed,
}

/// Choosing an application that gets a profile.
#[derive(Clone, Debug, PartialEq, Eq)]
pub struct AppCatalogPicker {
    /// What is searched for.
    pub search: String,
    /// Whether all applications are shown.
    pub expanded: bool,
    pub load: CatalogLoad,
    pub preferred_identity: IdentityKind,
}

impl AppCatalogPicker {
    /// A choice for which the applications are still being looked for.
    pub fn new(host: &Host) -> (r: AppCatalogPicker)
        ensures
            r.search@ == ""@,
            !r.expanded,
            r.load == CatalogLoad::Loading,
            r.preferred_identity == preferred_kind(*host, None),
    {
        AppCatalogPicker {
            search: "".to_owned(),
            expanded: false,
            load: CatalogLoad::Loading,
            preferred_identity: preferred_identity_kind(host, None),
        }
    }

    /// Take over the applications that were found, and the kind of name that
    /// the window in front went by. `None` if they could not be looked for.
    pub fn discovered(
        &mut self,
        host: &Host,
        found: Option<(Vec<Application>, Option<IdentityKind>)>,
    )
        ensures
            match found {
                Some((applications, runtime)) => *final(self) == (AppCatalogPicker {
                    load: CatalogLoad::Ready(applications),
                    preferred_identity: preferred_kind(*host, runtime),
                    ..*old(self)
                }),
                None => *final(self) == (AppCatalogPicker {
                    load: CatalogLoad::Failed,
                    ..*old(self)
                }),
            },
    {
        match found {
            Some((applications, runtime)) => {
                self.preferred_identity = preferred_identity_kind(host, runtime);
                self.load = CatalogLoad::Ready(applications);
            },
            None => {
                self.load = CatalogLoad::Failed;
            },
        }
    }

    /// Search for nothing.
    pub fn clear_search(&mut self)
        ensures
            final(self).search@ == ""@,
            *final(self) == (AppCatalogPicker { search: final(self).search, ..*old(self) }),
    {
        self.search = "".to_owned();
    }

    /// Show all applications, or no longer.
    pub fn toggle(&mut self)
        ensures
            *final(self) == (AppCatalogPicker { expanded: !old(self).expanded, ..*old(self) }),
    {
        self.expanded = !self.expanded;
    }

    /// The installed applications that could get a profile, by name.
    pub fn available_profiles(&self, observed: &Vec<String>, unavailable: &Vec<String>) -> (r: Vec<
        ProfileChoice,
    >)
        ensures
            r.deep_view() == match self.load {
                CatalogLoad::Ready(applications) => listed(
                    offered(
                        applications.deep_view(),
                        observed.deep_view(),
                        unavailable.deep_view(),
                        self.preferred_identity,
                    ),
                    true,
                ),
                _ => Seq::empty(),
            },
    {
        match &self.load {
            CatalogLoad::Ready(applications) => sort_profiles(
                offer(applications, observed, unavailable, self.preferred_identity),
                true,
            ),
            _ => {
                let r: Vec<ProfileChoice> = Vec::new();
                proof {
                    assert(r.deep_view() =~= Seq::empty());
                }
                r
            },
        }
    }
}

/// Whether a character parts the words of a name: of a path, or of an
/// identifier.
pub open spec fn parts(c: char, path: bool) -> bool {
    if path {
        c == '/' || c == '\\'
    } else {
        c == '.'
    }
}

/// Where the last word of a text ends; zero if there is none.
pub open spec fn word_end(text: Seq<char>, path: bool) -> int
    decreases text.len(),
{
    if text.len() == 0 {
        0
    } else if parts(text.last(), path) {
        word_end(text.drop_last(), path)
    } else {
        text.len() as int
    }
}

/// Where a word that ends at `end` starts.
pub open spec fn word_start(text: Seq<char>, end: int, path: bool) -> int
    decreases end,
{
    if end <= 0 || parts(text[end - 1], path) {
        end
    } else {
        word_start(text, end - 1, path)
    }
}

/// The last word of a text, or the whole text if it has none.
pub open spec fn last_word(text: Seq<char>, path: bool) -> Seq<char> {
    let end = word_end(text, path);
    if end == 0 {
        text
    } else {
        text.subrange(word_start(text, end, path), end)
    }
}

/// A name without `.exe`, however often it ends in it.
pub open spec fn without_exe(name: Seq<char>) -> Seq<char>
    decreases name.len(),
{
    if name.len() >= 4 && name.skip(name.len() - 4) == ".exe"@ {
        without_exe(name.take(name.len() - 4))
    } else {
        name
    }
}

/// A name to read, made from what names an application.
pub open spec fn friendly_name(identifier: Seq<char>) -> Seq<char> {
    if identifier.len() >= 4 && identifier.take(4) == "exe:"@ {
        without_exe(last_word(identifier.skip(4), true))
    } else {
        last_word(identifier, false)
    }
}

fn parts_words(c: char, path: bool) -> (r: bool)
    ensures
        r == parts(c, path),
{
    if path {
        c == '/' || c == '\\'
    } else {
        c == '.'
    }
}

fn find_last_word(chars: &Vec<char>, path: bool) -> (r: (usize, usize))
    ensures
        r.0 <= r.1 <= chars@.len(),
        chars@.subrange(r.0 as int, r.1 as int) == last_word(chars@, path),
{
    let mut end: usize = chars.len();
    proof {
        assert(chars@.take(end as int) =~= chars@);
    }
    while end > 0 && parts_words(chars[end - 1], path)
        invariant
            end <= chars@.len(),
            word_end(chars@.take(end as int), path) == word_end(chars@, path),
        decreases end,
    {
        proof {
            assert(chars@.take(end as int).drop_last() =~= chars@.take(end - 1));
        }
        end = end - 1;
    }
    proof {
        if end > 0 {
            assert(chars@.take(end as int).last() == chars@[end - 1]);
        }
        assert(word_end(chars@, path) == end);
    }
    if end == 0 {
        proof {
            assert(chars@.subrange(0, chars@.len() as int) =~= chars@);
        }
        return (0, chars.len());
    }
    let mut start: usize = end;
    while start > 0 && !parts_words(chars[start - 1], path)
        invariant
            start <= end <= chars@.len(),
            word_start(chars@, start as int, path) == word_start(chars@, end as int, path),
        decreases start,
    {
        start = start - 1;
    }
    (start, end)
}

/// A name to read, made from what names an application: the last word of it
/// that a person would read.
pub fn friendly_app_name(identifier: &str) -> (r: String)
    ensures
        r@ == friendly_name(identifier@),
{
    proof {
        reveal_strlit("exe:");
        reveal_strlit(".exe");
    }
    let chars = chars_of(identifier);
    if !starts_with(identifier, "exe:") {
        let (start, end) = find_last_word(&chars, false);
        return text_of(&chars, start, end);
    }
    let path = text_of(&chars, 4, chars.len());
    proof {
        assert(path@ =~= identifier@.skip(4));
    }
    let chars = chars_of(path.as_str());
    let (start, end) = find_last_word(&chars, true);
    let mut name = text_of(&chars, start, end);
    while ends_with(name.as_str(), ".exe")
        invariant
            ".exe"@.len() == 4,
            without_exe(name@) == without_exe(last_word(path@, true)),
        decreases name@.len(),
    {
        let all = chars_of(name.as_str());
        let ghost was = name@;
        name = text_of(&all, 0, all.len() - 4);
        proof {
            assert(name@ =~= was.take(was.len() - 4));
        }
    }
    name
}

/// What an application is called: as it was seen, or by what names it.
pub open spec fn called(recent: Seq<ForegroundAppModel>, app: Seq<char>) -> Seq<char> {
    match seen_as(recent, app) {
        Some(name) => name,
        None => friendly_name(app),
    }
}

/// The profiles of a device, by application.
pub open spec fn saved_choices(
    recent: Seq<ForegroundAppModel>,
    profiles: Seq<AppProfileModel>,
) -> Seq<ProfileChoiceModel> {
    Seq::new(
        profiles.len(),
        |i: int|
            ProfileChoiceModel {
                app: profiles[i].app,
                name: called(recent, profiles[i].app),
                override_count: profiles[i].overrides as usize,
                persisted: true,
            },
    )
}

/// The profiles of a device with the one that is open, which may not be saved
/// yet.
pub open spec fn with_open(
    recent: Seq<ForegroundAppModel>,
    saved: Seq<ProfileChoiceModel>,
    open: Option<Seq<char>>,
) -> Seq<ProfileChoiceModel> {
    match open {
        Some(app) => if lists(saved, app) {
            saved
        } else {
            saved.push(new_choice(app, called(recent, app)))
        },
        None => saved,
    }
}

/// The applications that were in front lately and could get a profile.
pub open spec fn recent_choices(
    recent: Seq<ForegroundAppModel>,
    saved: Seq<ProfileChoiceModel>,
    open: Option<Seq<char>>,
) -> Seq<ProfileChoiceModel>
    decreases recent.len(),
{
    if recent.len() == 0 {
        Seq::empty()
    } else {
        let before = recent_choices(recent.drop_last(), saved, open);
        let app = recent.last();
        if lists(saved, app.id) || open == Some(app.id) {
            before
        } else {
            before.push(new_choice(app.id, app.display_name))
        }
    }
}

/// What names the applications of a list.
pub open spec fn ids_of(list: Seq<ProfileChoiceModel>) -> Seq<Seq<char>> {
    Seq::new(list.len(), |i: int| list[i].app)
}

/// What names the applications that were in front lately.
pub open spec fn ids_seen(recent: Seq<ForegroundAppModel>) -> Seq<Seq<char>> {
    Seq::new(recent.len(), |i: int| recent[i].id)
}

/// The profile of a list that is for an application.
pub open spec fn choice_for(list: Seq<ProfileChoiceModel>, app: Seq<char>) -> Option<
    ProfileChoiceModel,
>
    decreases list.len(),
{
    if list.len() == 0 {
        None
    } else {
        match choice_for(list.drop_last(), app) {
            Some(choice) => Some(choice),
            None => if list.last().app == app {
                Some(list.last())
            } else {
                None
            },
        }
    }
}

/// What the profile bar shows.
#[derive(Clone, Debug, PartialEq, Eq)]
pub struct ProfileScope {
    /// The application whose profile is open; `None` for that of every one.
    pub editing_app: Option<String>,
    pub profiles: Vec<ProfileChoice>,
    /// The applications that were in front lately and could get a profile.
    pub recent: Vec<ProfileChoice>,
    /// The installed applications that could get a profile.
    pub applications: Vec<ProfileChoice>,
    pub loading: bool,
    pub failed: bool,
    /// The profile that has options: the one that is open, once it is saved.
    pub options: Option<ProfileChoice>,
}

fn saved_profiles(state: &AppState, profiles: &Vec<AppProfile>) -> (r: Vec<ProfileChoice>)
    ensures
        r.deep_view() == saved_choices(
            state.deep_view().foreground.recent,
            profiles.deep_view(),
        ),
{
    let ghost recent = state.deep_view().foreground.recent;
    let mut r: Vec<ProfileChoice> = Vec::new();
    let mut i: usize = 0;
    while i < profiles.len()
        invariant
            i <= profiles@.len(),
            recent == state.deep_view().foreground.recent,
            r@.len() == i,
            forall|k: int|
                0 <= k < i ==> (#[trigger] r@[k]).deep_view() == (ProfileChoiceModel {
                    app: profiles@[k].app@,
                    name: called(recent, profiles@[k].app@),
                    override_count: profiles@[k].overrides,
                    persisted: true,
                }),
        decreases profiles@.len() - i,
    {
        r.push(
            ProfileChoice {
                app: profiles[i].app.duplicate(),
                name: state.name_of_app(&profiles[i].app),
                override_count: profiles[i].overrides,
                persisted: true,
            },
        );
        i = i + 1;
    }
    proof {
        assert(r.deep_view() =~= saved_choices(recent, profiles.deep_view()));
    }
    r
}

fn recent_profiles(
    recent: &Vec<ForegroundApp>,
    saved: &Vec<ProfileChoice>,
    open: &Option<String>,
) -> (r: Vec<ProfileChoice>)
    ensures
        r.deep_view() == recent_choices(recent.deep_view(), saved.deep_view(), open.deep_view()),
{
    let ghost all = recent.deep_view();
    let mut r: Vec<ProfileChoice> = Vec::new();
    let mut i: usize = 0;
    proof {
        assert(all.take(0) =~= Seq::empty());
        assert(r.deep_view() =~= Seq::empty());
    }
    while i < recent.len()
        invariant
            i <= recent@.len(),
            all == recent.deep_view(),
            r.deep_view() == recent_choices(
                all.take(i as int),
                saved.deep_view(),
                open.deep_view(),
            ),
        decreases recent@.len() - i,
    {
        let app = &recent[i];
        let ghost was = r.deep_view();
        proof {
            assert(all.take(i as int + 1).drop_last() =~= all.take(i as int));
            assert(all.take(i as int + 1).last() == app.deep_view());
        }
        let is_open = match open {
            Some(open) => *open == app.id,
            None => false,
        };
        if !holds(saved, &app.id) && !is_open {
            r.push(
                ProfileChoice {
                    app: app.id.duplicate(),
                    name: app.display_name.duplicate(),
                    override_count: 0,
                    persisted: false,
                },
            );
            proof {
                assert(r.deep_view() =~= was.push(new_choice(app.id@, app.display_name@)));
            }
        }
        i = i + 1;
    }
    proof {
        assert(all.take(all.len() as int) =~= all);
    }
    r
}

fn app_ids(list: &Vec<ProfileChoice>) -> (r: Vec<String>)
    ensures
        r.deep_view() == ids_of(list.deep_view()),
{
    let mut r: Vec<String> = Vec::new();
    let mut i: usize = 0;
    while i < list.len()
        invariant
            i <= list@.len(),
            r@.len() == i,
            forall|k: int| 0 <= k < i ==> (#[trigger] r@[k])@ == list@[k].app@,
        decreases list@.len() - i,
    {
        r.push(list[i].app.duplicate());
        i = i + 1;
    }
    proof {
        assert(r.deep_view() =~= ids_of(list.deep_view()));
    }
    r
}

fn seen_ids(recent: &Vec<ForegroundApp>) -> (r: Vec<String>)
    ensures
        r.deep_view() == ids_seen(recent.deep_view()),
{
    let mut r: Vec<String> = Vec::new();
    let mut i: usize = 0;
    while i < recent.len()
        invariant
            i <= recent@.len(),
            r@.len() == i,
            forall|k: int| 0 <= k < i ==> (#[trigger] r@[k])@ == recent@[k].id@,
        decreases recent@.len() - i,
    {
        r.push(recent[i].id.duplicate());
        i = i + 1;
    }
    proof {
        assert(r.deep_view() =~= ids_seen(recent.deep_view()));
    }
    r
}

fn add_ids(to: &mut Vec<String>, more: &Vec<String>)
    ensures
        final(to).deep_view() == old(to).deep_view() + more.deep_view(),
{
    let ghost was = to.deep_view();
    let ghost all = more.deep_view();
    let mut i: usize = 0;
    proof {
        assert(was + all.take(0) =~= was);
    }
    while i < more.len()
        invariant
            i <= more@.len(),
            all == more.deep_view(),
            to.deep_view() == was + all.take(i as int),
        decreases more@.len() - i,
    {
        let ghost before = to.deep_view();
        to.push(more[i].duplicate());
        proof {
            assert(to.deep_view() =~= before.push(more@[i as int]@));
            assert(was + all.take(i as int + 1) =~= before.push(all[i as int]));
        }
        i = i + 1;
    }
    proof {
        assert(all.take(all.len() as int) =~= all);
    }
}

fn find_choice(list: &Vec<ProfileChoice>, app: &String) -> (r: Option<ProfileChoice>)
    ensures
        r.deep_view() == choice_for(list.deep_view(), app@),
{
    let ghost all = list.deep_view();
    let mut r: Option<ProfileChoice> = None;
    let mut i: usize = 0;
    proof {
        assert(all.take(0) =~= Seq::empty());
    }
    while i < list.len()
        invariant
            i <= list@.len(),
            all == list.deep_view(),
            r.deep_view() == choice_for(all.take(i as int), app@),
        decreases list@.len() - i,
    {
        proof {
            assert(all.take(i as int + 1).drop_last() =~= all.take(i as int));
            assert(all.take(i as int + 1).last() == list@[i as int].deep_view());
        }
        if r.is_none() && list[i].app == *app {
            r = Some(list[i].duplicate());
        }
        i = i + 1;
    }
    proof {
        assert(all.take(all.len() as int) =~= all);
    }
    r
}

/// The profiles that the selected device has, with the one that is open.
pub open spec fn open_profiles(m: StateModel) -> Seq<ProfileChoiceModel> {
    listed(with_open(m.foreground.recent, saved_of(m), editing(m)), false)
}

/// The profiles that the selected device has saved.
pub open spec fn saved_of(m: StateModel) -> Seq<ProfileChoiceModel> {
    saved_choices(
        m.foreground.recent,
        match current_key(m) {
            Some(key) => profiles_of(row_of(m.config, key).per_app),
            None => Seq::empty(),
        },
    )
}

/// The applications that are not offered from the installed ones: those with a
/// profile, those that were in front lately, and the one that is open.
pub open spec fn taken_ids(m: StateModel) -> Seq<Seq<char>> {
    ids_of(saved_of(m)) + ids_seen(m.foreground.recent) + match editing(m) {
        Some(app) => seq![app],
        None => Seq::empty(),
    }
}

impl AppState {
    /// What an application is called.
    pub fn name_of_app(&self, app: &String) -> (r: String)
        ensures
            r@ == called(self.deep_view().foreground.recent, app@),
    {
        match self.recent_app_name(app) {
            Some(name) => name,
            None => friendly_app_name(app.as_str()),
        }
    }
}

/// What the profile bar shows, or `None` where the selected device has no
/// profiles. Which application is in front never changes which profile is open.
pub fn profile_scope_bar(state: &AppState, catalog: &AppCatalogPicker) -> (r: Option<ProfileScope>)
    ensures
        r is Some <==> current_key(state.deep_view()) is Some,
        r matches Some(scope) ==> {
            let m = state.deep_view();
            &&& scope.editing_app.deep_view() == editing(m)
            &&& scope.profiles.deep_view() == open_profiles(m)
            &&& scope.recent.deep_view() == recent_choices(
                m.foreground.recent,
                saved_of(m),
                editing(m),
            )
            &&& scope.applications.deep_view() == match catalog.load {
                CatalogLoad::Ready(applications) => listed(
                    offered(
                        applications.deep_view(),
                        ids_seen(m.foreground.recent),
                        taken_ids(m),
                        catalog.preferred_identity,
                    ),
                    true,
                ),
                _ => Seq::empty(),
            }
            &&& scope.loading == (catalog.load is Loading)
            &&& scope.failed == (catalog.load is Failed)
            &&& scope.options.deep_view() == match editing(m) {
                Some(app) => match choice_for(open_profiles(m), app) {
                    Some(choice) => if choice.persisted {
                        Some(choice)
                    } else {
                        None
                    },
                    None => None,
                },
                None => None,
            }
        },
{
    if !state.current_device_is_persistent() {
        return None;
    }
    let ghost m = state.deep_view();
    let editing_app = state.editing_app();
    let saved = saved_profiles(state, &state.app_profiles());
    let recent = recent_profiles(state.recent_apps(), &saved, &editing_app);
    let observed = seen_ids(state.recent_apps());
    let mut unavailable = app_ids(&saved);
    add_ids(&mut unavailable, &observed);
    let mut profiles = saved;
    match &editing_app {
        Some(app) => {
            let ghost before = unavailable.deep_view();
            unavailable.push(app.duplicate());
            proof {
                assert(unavailable.deep_view() =~= before + seq![app@]);
            }
            if !holds(&profiles, app) {
                let ghost was = profiles.deep_view();
                profiles.push(
                    ProfileChoice {
                        app: app.duplicate(),
                        name: state.name_of_app(app),
                        override_count: 0,
                        persisted: false,
                    },
                );
                proof {
                    assert(profiles.deep_view() =~= was.push(
                        new_choice(app@, called(m.foreground.recent, app@)),
                    ));
                }
            }
        },
        None => {
            proof {
                assert(unavailable.deep_view() =~= taken_ids(m));
            }
        },
    }
    let profiles = sort_profiles(profiles, false);
    let applications = catalog.available_profiles(&observed, &unavailable);
    let loading = match &catalog.load {
        CatalogLoad::Loading => true,
        _ => false,
    };
    let failed = match &catalog.load {
        CatalogLoad::Failed => true,
        _ => false,
    };
    let options = match &editing_app {
        Some(app) => match find_choice(&profiles, app) {
            Some(choice) => if choice.persisted {
                Some(choice)
            } else {
                None
            },
            None => None,
        },
        None => None,
    };
    Some(ProfileScope { editing_app, profiles, recent, applications, loading, failed, options })
}

/// What a profile is said to do.
#[derive(Clone, Debug, PartialEq, Eq)]
pub enum ProfileSummary {
    /// It is that of every application.
    Everywhere,
    /// It overrides nothing yet.
    NoOverrides { app: String },
    OneOverride { app: String },
    Overrides { app: String, count: usize },
}

/// What a profile is said to do.
pub fn profile_summary(editing_app: Option<String>, override_count: usize) -> (r: ProfileSummary)
    ensures
        r == (match editing_app {
            None => ProfileSummary::Everywhere,
            Some(app) => if override_count == 0 {
                ProfileSummary::NoOverrides { app }
            } else if override_count == 1 {
                ProfileSummary::OneOverride { app }
            } else {
                ProfileSummary::Overrides { app, count: override_count }
            },
        }),
{
    match editing_app {
        None => ProfileSummary::Everywhere,
        Some(app) => if override_count == 0 {
            ProfileSummary::NoOverrides { app }
        } else if override_count == 1 {
            ProfileSummary::OneOverride { app }
        } else {
            ProfileSummary::Overrides { app, count: override_count }
        },
    }
}

/// How many controls the open profile overrides.
pub open spec fn override_total(m: StateModel) -> nat {
    match (current_key(m), editing(m)) {
        (Some(key), Some(app)) => if row_of(m.config, key).per_app.contains_key(app) {
            row_of(m.config, key).per_app[app].len()
        } else {
            0
        },
        _ => 0,
    }
}

/// What is said above the device: what the open profile does, and the name of
/// the profile that the device runs under, `None` for that of every
/// application. Nothing is said where the selected device has no profiles.
pub fn profile_canvas_status(state: &AppState) -> (r: Option<(ProfileSummary, Option<String>)>)
    ensures
        r is Some <==> current_key(state.deep_view()) is Some,
        r matches Some((summary, active)) ==> {
            let m = state.deep_view();
            &&& active.deep_view() == crate::foreground::active_profile(m)
            &&& match editing(m) {
                None => summary == ProfileSummary::Everywhere,
                Some(app) => match summary {
                    ProfileSummary::Everywhere => false,
                    ProfileSummary::NoOverrides { app: name } => name@ == called(
                        m.foreground.recent,
                        app,
                    ) && override_total(m) == 0,
                    ProfileSummary::OneOverride { app: name } => name@ == called(
                        m.foreground.recent,
                        app,
                    ) && override_total(m) == 1,
                    ProfileSummary::Overrides { app: name, count } => name@ == called(
                        m.foreground.recent,
                        app,
                    ) && override_total(m) == count && count > 1,
                },
            }
        },
{
    if !state.current_device_is_persistent() {
        return None;
    }
    let name = match state.editing_app() {
        Some(app) => Some(state.name_of_app(&app)),
        None => None,
    };
    let count: usize = match state.editing_app_overrides() {
        Some(overrides) => overrides.len(),
        None => 0,
    };
    Some((profile_summary(name, count), state.active_profile_name()))
}

/// The first character of a name that is not white space.
pub open spec fn first_visible(name: Seq<char>) -> Option<char>
    decreases name.len(),
{
    if name.len() == 0 {
        None
    } else if is_white(name[0]) {
        first_visible(name.drop_first())
    } else {
        Some(name[0])
    }
}

/// What stands for an application that has no icon: the first character of its
/// name that is not white space, or a question mark.
pub fn application_initial(name: &str) -> (r: char)
    ensures
        r == match first_visible(name@) {
            Some(c) => c,
            None => '?',
        },
{
    let chars = chars_of(name);
    let mut i: usize = 0;
    proof {
        assert(chars@.skip(0) =~= name@);
    }
    while i < chars.len()
        invariant
            i <= chars@.len(),
            first_visible(chars@.skip(i as int)) == first_visible(name@),
        decreases chars@.len() - i,
    {
        if !is_whitespace(chars[i]) {
            return chars[i];
        }
        proof {
            assert(chars@.skip(i as int).drop_first() =~= chars@.skip(i as int + 1));
        }
        i = i + 1;
    }
    '?'
}

/// Whether a profile is found by a query in lower case.
pub open spec fn is_match(choice: ProfileChoiceModel, query: Seq<char>) -> bool {
    query.len() == 0 || occurs(query, lowercase(choice.name)) || occurs(
        query,
        lowercase(choice.app),
    )
}

/// Whether a profile is found by a query in lower case: by its name, or by what
/// names its application.
pub fn profile_matches_query(choice: &ProfileChoice, query: &str) -> (r: bool)
    ensures
        r == is_match(choice.deep_view(), query@),
{
    chars_of(query).len() == 0 || contains_text(to_lowercase(choice.name.as_str()).as_str(), query)
        || contains_text(to_lowercase(choice.app.as_str()).as_str(), query)
}

/// The profiles of a list that a query finds.
pub open spec fn matches_of(list: Seq<ProfileChoiceModel>, query: Seq<char>) -> Seq<
    ProfileChoiceModel,
>
    decreases list.len(),
{
    if list.len() == 0 {
        Seq::empty()
    } else {
        let before = matches_of(list.drop_last(), query);
        if is_match(list.last(), query) {
            before.push(list.last())
        } else {
            before
        }
    }
}

fn find_matches(list: &Vec<ProfileChoice>, query: &str) -> (r: Vec<ProfileChoice>)
    ensures
        r.deep_view() == matches_of(list.deep_view(), query@),
{
    let ghost all = list.deep_view();
    let mut r: Vec<ProfileChoice> = Vec::new();
    let mut i: usize = 0;
    proof {
        assert(all.take(0) =~= Seq::empty());
        assert(r.deep_view() =~= Seq::empty());
    }
    while i < list.len()
        invariant
            i <= list@.len(),
            all == list.deep_view(),
            r.deep_view() == matches_of(all.take(i as int), query@),
        decreases list@.len() - i,
    {
        let ghost was = r.deep_view();
        proof {
            assert(all.take(i as int + 1).drop_last() =~= all.take(i as int));
            assert(all.take(i as int + 1).last() == list@[i as int].deep_view());
        }
        if profile_matches_query(&list[i], query) {
            r.push(list[i].duplicate());
            proof {
                assert(r.deep_view() =~= was.push(list@[i as int].deep_view()));
            }
        }
        i = i + 1;
    }
    proof {
        assert(all.take(all.len() as int) =~= all);
    }
    r
}

/// What is shown to choose an application that gets a profile.
#[derive(Clone, Debug, PartialEq, Eq)]
pub struct AddAppContent {
    pub recent: Vec<ProfileChoice>,
    pub applications: Vec<ProfileChoice>,
    /// Whether the installed applications are shown.
    pub show_applications: bool,
    pub say_loading: bool,
    pub say_failed: bool,
    pub say_no_matches: bool,
    /// How tall the list of installed applications is, in pixels.
    pub list_height: u32,
}

/// How tall a list of applications is, in pixels.
pub fn application_list_height(rows: usize) -> (r: u32)
    ensures
        r == APP_ROW_HEIGHT * (if rows < VISIBLE_APP_ROWS {
            rows
        } else {
            VISIBLE_APP_ROWS
        }),
{
    let visible: u32 = if rows < VISIBLE_APP_ROWS {
        rows as u32
    } else {
        VISIBLE_APP_ROWS as u32
    };
    APP_ROW_HEIGHT * visible
}

/// What is searched for: without white space around it, and whatever its case.
pub open spec fn query_of(search: Seq<char>) -> Seq<char> {
    lowercase(trimmed(search))
}

/// What is shown to choose an application that gets a profile.
pub fn add_app_content(scope: &ProfileScope, catalog: &AppCatalogPicker) -> (r: AddAppContent)
    ensures
        ({
            let query = query_of(catalog.search@);
            let found = matches_of(scope.applications.deep_view(), query);
            let seen = matches_of(scope.recent.deep_view(), query);
            let show = catalog.expanded || query.len() > 0;
            &&& r.recent.deep_view() == seen
            &&& r.applications.deep_view() == found
            &&& r.show_applications == show
            &&& r.say_loading == (show && scope.loading)
            &&& r.say_failed == (show && scope.failed)
            &&& r.say_no_matches == (show && found.len() == 0 && !scope.loading && !scope.failed
                && (query.len() == 0 || seen.len() == 0))
            &&& r.list_height == APP_ROW_HEIGHT * (if found.len() < VISIBLE_APP_ROWS {
                found.len() as int
            } else {
                VISIBLE_APP_ROWS as int
            })
        }),
{
    let query = to_lowercase(trim(catalog.search.as_str()).as_str());
    let blank = chars_of(query.as_str()).len() == 0;
    let show_applications = catalog.expanded || !blank;
    let recent = find_matches(&scope.recent, query.as_str());
    let applications = find_matches(&scope.applications, query.as_str());
    proof {
        assert(recent.deep_view().len() == recent@.len());
        assert(applications.deep_view().len() == applications@.len());
    }
    let no_matches = applications.len() == 0 && !scope.loading && !scope.failed && (blank
        || recent.len() == 0);
    let list_height: u32 = application_list_height(applications.len());
    AddAppContent {
        recent,
        applications,
        show_applications,
        say_loading: show_applications && scope.loading,
        say_failed: show_applications && scope.failed,
        say_no_matches: show_applications && no_matches,
        list_height,
    }
}

/// What is asked before a profile is removed.
#[derive(Clone, Debug, PartialEq, Eq)]
pub enum RemoveQuestion {
    OneOverride { app: String },
    Overrides { app: String, count: usize },
}

/// A tab of the bar of profiles.
#[derive(Clone, Debug, PartialEq, Eq)]
pub struct TabView {
    pub app: String,
    pub name: String,
    /// What stands for the application while it has no icon.
    pub initial: char,
    pub selected: bool,
}

/// Whether a tab is that of a profile.
pub open spec fn is_tab(
    tab: TabView,
    profile: ProfileChoice,
    editing_app: Option<Seq<char>>,
) -> bool {
    &&& tab.app@ == profile.app@
    &&& tab.name@ == profile.name@
    &&& tab.initial == match first_visible(profile.name@) {
        Some(c) => c,
        None => '?',
    }
    &&& tab.selected == (editing_app == Some(profile.app@))
}

/// The tabs of the bar: whether that of every application is selected, and the
/// others in order.
pub fn profile_scope_content(scope: &ProfileScope) -> (r: (bool, Vec<TabView>))
    ensures
        r.0 == (scope.editing_app is None),
        r.1@.len() == scope.profiles@.len(),
        forall|i: int|
            0 <= i < r.1@.len() ==> is_tab(
                #[trigger] r.1@[i],
                scope.profiles@[i],
                scope.editing_app.deep_view(),
            ),
{
    let mut tabs: Vec<TabView> = Vec::new();
    let mut i: usize = 0;
    while i < scope.profiles.len()
        invariant
            i <= scope.profiles@.len(),
            tabs@.len() == i,
            forall|k: int|
                0 <= k < i ==> is_tab(
                    #[trigger] tabs@[k],
                    scope.profiles@[k],
                    scope.editing_app.deep_view(),
                ),
        decreases scope.profiles@.len() - i,
    {
        let profile = &scope.profiles[i];
        let selected = match &scope.editing_app {
            Some(app) => crate::text::same_text(app.as_str(), profile.app.as_str()),
            None => false,
        };
        tabs.push(
            TabView {
                app: profile.app.duplicate(),
                name: profile.name.duplicate(),
                initial: application_initial(profile.name.as_str()),
                selected,
            },
        );
        i = i + 1;
    }
    (scope.editing_app.is_none(), tabs)
}

/// What is asked before a profile is removed.
pub fn remove_question(profile: &ProfileChoice) -> (r: RemoveQuestion)
    ensures
        match r {
            RemoveQuestion::OneOverride { app } => app@ == profile.name@ && profile.override_count
                == 1,
            RemoveQuestion::Overrides { app, count } => app@ == profile.name@ && count
                == profile.override_count && count != 1,
        },
{
    if profile.override_count == 1 {
        RemoveQuestion::OneOverride { app: profile.name.duplicate() }
    } else {
        RemoveQuestion::Overrides { app: profile.name.duplicate(), count: profile.override_count }
    }
}

/// A name that was observed wins over every other.
pub proof fn an_observed_name_wins(
    names: Seq<ApplicationIdentityModel>,
    observed: Seq<Seq<char>>,
    preferred: IdentityKind,
    i: int,
)
    requires
        0 <= i < names.len(),
        observed.contains(names[i].value),
    ensures
        matching_name(names, observed, preferred) matches Some(name) && observed.contains(name),
    decreases names.len(),
{
    lemma_observed_name(names, observed, i);
}

proof fn lemma_observed_name(
    names: Seq<ApplicationIdentityModel>,
    observed: Seq<Seq<char>>,
    i: int,
)
    requires
        0 <= i < names.len(),
        observed.contains(names[i].value),
    ensures
        observed_name(names, observed) matches Some(name) && observed.contains(name),
    decreases names.len(),
{
    if i < names.len() - 1 {
        lemma_observed_name(names.drop_last(), observed, i);
    } else {
        lemma_observed_among(names.drop_last(), observed);
    }
}

proof fn lemma_observed_among(names: Seq<ApplicationIdentityModel>, observed: Seq<Seq<char>>)
    ensures
        observed_name(names, observed) matches Some(name) ==> observed.contains(name),
    decreases names.len(),
{
    if names.len() > 0 {
        lemma_observed_among(names.drop_last(), observed);
    }
}

/// An application is never offered twice, and never one that is taken already.
pub proof fn nothing_is_offered_twice(
    applications: Seq<ApplicationModel>,
    observed: Seq<Seq<char>>,
    unavailable: Seq<Seq<char>>,
    preferred: IdentityKind,
)
    ensures
        ({
            let list = offered(applications, observed, unavailable, preferred);
            &&& forall|i: int|
                0 <= i < list.len() ==> !unavailable.contains((#[trigger] list[i]).app)
            &&& forall|i: int, j: int|
                0 <= i < j < list.len() ==> (#[trigger] list[i]).app != (#[trigger] list[j]).app
        }),
    decreases applications.len(),
{
    if applications.len() > 0 {
        nothing_is_offered_twice(applications.drop_last(), observed, unavailable, preferred);
        let before = offered(applications.drop_last(), observed, unavailable, preferred);
        let list = offered(applications, observed, unavailable, preferred);
        if list != before {
            assert(list == before.push(list.last()));
            assert(!lists(before, list.last().app));
            assert forall|i: int, j: int| 0 <= i < j < list.len() implies (#[trigger] list[i]).app
                != (#[trigger] list[j]).app by {
                assert(before[i] == list[i]);
            }
        }
    }
}

/// A list of profiles is in order of their names, and listing them leaves none
/// out and adds none.
pub proof fn profiles_are_listed_by_name(list: Seq<ProfileChoiceModel>, by_app: bool)
    ensures
        in_name_order(listed(list, by_app), by_app),
        listed(list, by_app).to_multiset() == list.to_multiset(),
    decreases list.len(),
{
    broadcast use vstd::seq_lib::group_to_multiset_ensures;

    if list.len() > 0 {
        profiles_are_listed_by_name(list.drop_last(), by_app);
        lemma_in_order(listed(list.drop_last(), by_app), list.last(), by_app);
        assert(list =~= list.drop_last().push(list.last()));
    }
}

/// Whether no profile of a list is ahead of one that stands before it.
pub open spec fn in_name_order(list: Seq<ProfileChoiceModel>, by_app: bool) -> bool {
    forall|i: int, j: int|
        0 <= i < j < list.len() ==> !is_ahead(#[trigger] list[j], #[trigger] list[i], by_app)
}

/// Being ahead is an order: of three, the last is not ahead of the first unless
/// a neighbour is.
proof fn lemma_ahead(
    a: ProfileChoiceModel,
    b: ProfileChoiceModel,
    c: ProfileChoiceModel,
    by_app: bool,
)
    requires
        !is_ahead(b, a, by_app),
        !is_ahead(c, b, by_app),
    ensures
        !is_ahead(c, a, by_app),
{
    let x = lowercase(a.name);
    let y = lowercase(b.name);
    let z = lowercase(c.name);
    crate::text::lemma_lex_total(x, y);
    crate::text::lemma_lex_total(y, z);
    crate::text::lemma_lex_total(a.app, b.app);
    crate::text::lemma_lex_total(b.app, c.app);
    crate::text::lemma_lex_irreflexive(x);
    crate::text::lemma_lex_irreflexive(a.app);
    if lex_lt(z, x) {
        if lex_lt(x, y) {
            crate::text::lemma_lex_transitive(z, x, y);
        }
    }
    if by_app && z == x && lex_lt(c.app, a.app) {
        if lex_lt(x, y) {
            assert(false);
        }
        if lex_lt(a.app, b.app) {
            crate::text::lemma_lex_transitive(c.app, a.app, b.app);
        }
    }
}

/// What is ahead of another is not behind it.
proof fn lemma_ahead_once(a: ProfileChoiceModel, b: ProfileChoiceModel, by_app: bool)
    requires
        is_ahead(a, b, by_app),
    ensures
        !is_ahead(b, a, by_app),
{
    let x = lowercase(a.name);
    let y = lowercase(b.name);
    crate::text::lemma_lex_irreflexive(x);
    crate::text::lemma_lex_irreflexive(a.app);
    if lex_lt(x, y) && lex_lt(y, x) {
        crate::text::lemma_lex_transitive(x, y, x);
    }
    if lex_lt(a.app, b.app) && lex_lt(b.app, a.app) {
        crate::text::lemma_lex_transitive(a.app, b.app, a.app);
    }
}

proof fn lemma_in_order(
    list: Seq<ProfileChoiceModel>,
    choice: ProfileChoiceModel,
    by_app: bool,
)
    requires
        in_name_order(list, by_app),
    ensures
        in_name_order(with_choice(list, choice, by_app), by_app),
        with_choice(list, choice, by_app).to_multiset() == list.to_multiset().insert(choice),
        forall|k: int|
            0 <= k < with_choice(list, choice, by_app).len() ==> (list.contains(
                #[trigger] with_choice(list, choice, by_app)[k],
            ) || with_choice(list, choice, by_app)[k] == choice),
    decreases list.len(),
{
    broadcast use vstd::seq_lib::group_to_multiset_ensures;

    if list.len() == 0 || !is_ahead(choice, list.last(), by_app) {
        let next = list.push(choice);
        assert forall|i: int, j: int| 0 <= i < j < next.len() implies !is_ahead(
            #[trigger] next[j],
            #[trigger] next[i],
            by_app,
        ) by {
            if j == list.len() && i < list.len() - 1 {
                assert(!is_ahead(list[list.len() - 1], list[i], by_app));
                lemma_ahead(list[i], list[list.len() - 1], choice, by_app);
            }
        }
        assert forall|k: int| 0 <= k < next.len() implies (list.contains(#[trigger] next[k])
            || next[k] == choice) by {
            if k < list.len() {
                assert(list[k] == next[k]);
            }
        }
    } else {
        let rest = list.drop_last();
        let last = list.last();
        assert(in_name_order(rest, by_app)) by {
            assert forall|i: int, j: int| 0 <= i < j < rest.len() implies !is_ahead(
                #[trigger] rest[j],
                #[trigger] rest[i],
                by_app,
            ) by {
                assert(rest[i] == list[i] && rest[j] == list[j]);
            }
        }
        lemma_in_order(rest, choice, by_app);
        let inner = with_choice(rest, choice, by_app);
        let next = inner.push(last);
        assert forall|i: int, j: int| 0 <= i < j < next.len() implies !is_ahead(
            #[trigger] next[j],
            #[trigger] next[i],
            by_app,
        ) by {
            if j == inner.len() {
                if rest.contains(inner[i]) {
                    let k = choose|k: int| 0 <= k < rest.len() && rest[k] == inner[i];
                    assert(!is_ahead(list[list.len() - 1], list[k], by_app));
                } else {
                    lemma_ahead_once(choice, last, by_app);
                }
            } else {
                assert(!is_ahead(inner[j], inner[i], by_app));
            }
        }
        assert(list =~= rest.push(last));
        assert(next.to_multiset() =~= list.to_multiset().insert(choice));
        assert forall|k: int| 0 <= k < next.len() implies (list.contains(#[trigger] next[k])
            || next[k] == choice) by {
            if k < inner.len() {
                if rest.contains(inner[k]) {
                    let j = choose|j: int| 0 <= j < rest.len() && rest[j] == inner[k];
                    assert(list[j] == next[k]);
                }
            } else {
                assert(list[list.len() - 1] == next[k]);
            }
        }
    }
}

/// The profile that is open is in the bar, saved or not.
pub proof fn the_open_profile_has_a_tab(m: StateModel)
    requires
        editing(m) is Some,
    ensures
        exists|i: int|
            0 <= i < open_profiles(m).len() && (#[trigger] open_profiles(m)[i]).app == editing(m)->0,
{
    broadcast use vstd::seq_lib::group_to_multiset_ensures;

    let app = editing(m)->0;
    let list = with_open(m.foreground.recent, saved_of(m), editing(m));
    profiles_are_listed_by_name(list, false);
    assert(exists|k: int| 0 <= k < list.len() && (#[trigger] list[k]).app == app) by {
        if !lists(saved_of(m), app) {
            assert(list[list.len() - 1].app == app);
        }
    }
    let k = choose|k: int| 0 <= k < list.len() && (#[trigger] list[k]).app == app;
    assert(list.to_multiset().count(list[k]) > 0) by {
        assert(list.contains(list[k]));
    }
    assert(open_profiles(m).contains(list[k]));
}

/// The name of a kind is the first that an application has of it.
pub proof fn the_first_name_of_a_kind_counts(
    names: Seq<ApplicationIdentityModel>,
    kind: IdentityKind,
)
    ensures
        match name_of_kind(names, kind) {
            Some(name) => exists|i: int|
                0 <= i < names.len() && (#[trigger] names[i]).kind == kind && names[i].value == name
                    && forall|j: int| 0 <= j < i ==> (#[trigger] names[j]).kind != kind,
            None => forall|j: int| 0 <= j < names.len() ==> (#[trigger] names[j]).kind != kind,
        },
    decreases names.len(),
{
    if names.len() > 0 {
        let rest = names.drop_last();
        let last = names.len() - 1;
        the_first_name_of_a_kind_counts(rest, kind);
        assert forall|j: int| 0 <= j < rest.len() implies #[trigger] rest[j] == names[j] by {}
        match name_of_kind(rest, kind) {
            Some(name) => {
                let i = choose|i: int|
                    0 <= i < rest.len() && (#[trigger] rest[i]).kind == kind && rest[i].value
                        == name && forall|j: int| 0 <= j < i ==> (#[trigger] rest[j]).kind != kind;
                assert(names[i].kind == kind);
                assert forall|j: int| 0 <= j < i implies (#[trigger] names[j]).kind != kind by {
                    assert(rest[j] == names[j]);
                }
            },
            None => {
                assert forall|j: int| 0 <= j < last implies (#[trigger] names[j]).kind != kind by {
                    assert(rest[j] == names[j]);
                }
                if names.last().kind == kind {
                    assert(names[last].kind == kind);
                }
            },
        }
    }
}

/// An application that was not observed goes by the kind of name that the host tells
/// windows by. Where that is a window class and it has none, it goes by its desktop
/// file.
pub proof fn an_app_goes_by_the_name_of_the_host(
    names: Seq<ApplicationIdentityModel>,
    observed: Seq<Seq<char>>,
    preferred: IdentityKind,
)
    requires
        observed_name(names, observed) is None,
    ensures
        name_of_kind(names, preferred) is Some ==> matching_name(names, observed, preferred)
            == name_of_kind(names, preferred),
        name_of_kind(names, preferred) is None && preferred == IdentityKind::LinuxStartupWmClass
            ==> matching_name(names, observed, preferred) == name_of_kind(
            names,
            IdentityKind::LinuxDesktopId,
        ),
        name_of_kind(names, preferred) is None && preferred != IdentityKind::LinuxStartupWmClass
            ==> matching_name(names, observed, preferred) is None,
{
}

/// Every host tells its windows by its own kind of name.
pub proof fn a_host_tells_windows_in_its_way(runtime: Option<IdentityKind>)
    ensures
        preferred_kind(Host::MacOs, runtime) == IdentityKind::MacBundleIdentifier,
        preferred_kind(Host::Windows, runtime) == IdentityKind::WindowsExecutablePath,
        is_runtime_name(IdentityKind::LinuxStartupWmClass),
        is_runtime_name(IdentityKind::LinuxWaylandAppId),
        !is_runtime_name(IdentityKind::LinuxDesktopId),
        !is_runtime_name(IdentityKind::MacBundleIdentifier),
        !is_runtime_name(IdentityKind::WindowsExecutablePath),
{
}

/// Every installed application that can be told by a window and is not taken is
/// offered a profile.
pub proof fn every_free_app_is_offered(
    applications: Seq<ApplicationModel>,
    observed: Seq<Seq<char>>,
    unavailable: Seq<Seq<char>>,
    preferred: IdentityKind,
    i: int,
)
    requires
        0 <= i < applications.len(),
        matching_name(applications[i].identities, observed, preferred) is Some,
        !unavailable.contains(
            matching_name(applications[i].identities, observed, preferred)->0,
        ),
    ensures
        lists(
            offered(applications, observed, unavailable, preferred),
            matching_name(applications[i].identities, observed, preferred)->0,
        ),
    decreases applications.len(),
{
    let rest = applications.drop_last();
    let before = offered(rest, observed, unavailable, preferred);
    let list = offered(applications, observed, unavailable, preferred);
    let app = matching_name(applications[i].identities, observed, preferred)->0;
    if i < rest.len() {
        assert(rest[i] == applications[i]);
        every_free_app_is_offered(rest, observed, unavailable, preferred, i);
        let k = choose|k: int| 0 <= k < before.len() && (#[trigger] before[k]).app == app;
        assert(list[k].app == app);
    } else {
        if lists(before, app) {
            let k = choose|k: int| 0 <= k < before.len() && (#[trigger] before[k]).app == app;
            assert(list[k].app == app);
        } else {
            assert(list[before.len() as int].app == app);
        }
    }
}

/// A search finds exactly the profiles that have it in their name or in what names
/// their application; an empty one finds all of them.
pub proof fn a_search_finds_what_matches(
    list: Seq<ProfileChoiceModel>,
    query: Seq<char>,
    choice: ProfileChoiceModel,
)
    ensures
        matches_of(list, query).contains(choice) <==> list.contains(choice) && (query.len() == 0
            || occurs(query, lowercase(choice.name)) || occurs(query, lowercase(choice.app))),
        query.len() == 0 ==> matches_of(list, query) == list,
    decreases list.len(),
{
    let found = matches_of(list, query);
    if list.len() == 0 {
        assert(!list.contains(choice));
        assert(found =~= list);
    } else {
        let rest = list.drop_last();
        let last = list.last();
        let before = matches_of(rest, query);
        a_search_finds_what_matches(rest, query, choice);
        assert(list =~= rest.push(last));
        if rest.contains(choice) {
            let i = choose|i: int| 0 <= i < rest.len() && rest[i] == choice;
            assert(list[i] == choice);
        }
        if list.contains(choice) && choice != last {
            let i = choose|i: int| 0 <= i < list.len() && list[i] == choice;
            assert(rest[i] == choice);
        }
        assert(list[list.len() - 1] == last);
        if before.contains(choice) {
            let i = choose|i: int| 0 <= i < before.len() && before[i] == choice;
            assert(found[i] == choice);
        }
        if found.contains(choice) {
            let i = choose|i: int| 0 <= i < found.len() && found[i] == choice;
            if i < before.len() {
                assert(before[i] == choice);
            }
        }
        if is_match(last, query) {
            assert(found[before.len() as int] == last);
        }
    }
}

/// The mark of a profile is the first character of its name that can be seen.
pub proof fn a_profile_is_marked_by_its_name(name: Seq<char>)
    ensures
        match first_visible(name) {
            Some(c) => exists|i: int|
                0 <= i < name.len() && #[trigger] name[i] == c && !is_white(c) && forall|j: int|
                    0 <= j < i ==> is_white(#[trigger] name[j]),
            None => forall|j: int| 0 <= j < name.len() ==> is_white(#[trigger] name[j]),
        },
    decreases name.len(),
{
    if name.len() > 0 {
        if is_white(name[0]) {
            let rest = name.drop_first();
            a_profile_is_marked_by_its_name(rest);
            match first_visible(rest) {
                Some(c) => {
                    let i = choose|i: int|
                        0 <= i < rest.len() && #[trigger] rest[i] == c && !is_white(c) && forall|
                            j: int,
                        |
                            0 <= j < i ==> is_white(#[trigger] rest[j]);
                    assert(name[i + 1] == c);
                    assert forall|j: int| 0 <= j < i + 1 implies is_white(#[trigger] name[j]) by {
                        if j > 0 {
                            assert(rest[j - 1] == name[j]);
                        }
                    }
                },
                None => {
                    assert forall|j: int| 0 <= j < name.len() implies is_white(
                        #[trigger] name[j],
                    ) by {
                        if j > 0 {
                            assert(rest[j - 1] == name[j]);
                        }
                    }
                },
            }
        } else {
            assert(name[0] == first_visible(name)->0);
        }
    }
}

proof fn lemma_word_start(text: Seq<char>, end: int, start: int, path: bool)
    requires
        0 <= start <= end <= text.len(),
        forall|i: int| start <= i < end ==> !parts(#[trigger] text[i], path),
        start > 0 ==> parts(text[start - 1], path),
    ensures
        word_start(text, end, path) == start,
    decreases end - start,
{
    if start < end {
        assert(!parts(text[end - 1], path));
        lemma_word_start(text, end - 1, start, path);
    }
}

/// What names an application is read as its last word: behind the last dot, or, of a
/// program, the name of its file without its ending.
pub proof fn an_identifier_is_read_as_its_last_word(
    before: Seq<char>,
    word: Seq<char>,
    folder: Seq<char>,
)
    requires
        word.len() > 0,
        !word.contains('.'),
        !word.contains('/'),
        !word.contains('\\'),
        before.len() > 0,
        before[0] != 'e',
    ensures
        friendly_name(before + seq!['.'] + word) == word,
        friendly_name("exe:"@ + folder + seq!['/'] + word + ".exe"@) == word,
        friendly_name("exe:"@ + folder + seq!['\\'] + word + ".exe"@) == word,
{
    reveal_strlit("exe:");
    reveal_strlit(".exe");
    let text = before + seq!['.'] + word;
    let n = before.len() as int + 1;
    assert(text.take(4) != "exe:"@ || text.len() < 4) by {
        if text.len() >= 4 && text.take(4) == "exe:"@ {
            assert(text.take(4)[0] == before[0]);
        }
    }
    assert forall|i: int| n <= i < text.len() implies !parts(#[trigger] text[i], false) by {
        assert(text[i] == word[i - n]);
        assert(word.contains(word[i - n]));
    }
    assert(text[n - 1] == '.');
    assert(word_end(text, false) == text.len());
    lemma_word_start(text, text.len() as int, n, false);
    assert(last_word(text, false) =~= word);
    lemma_program(folder, '/', word);
    lemma_program(folder, '\\', word);
}

proof fn lemma_program(folder: Seq<char>, slash: char, word: Seq<char>)
    requires
        slash == '/' || slash == '\\',
        word.len() > 0,
        !word.contains('.'),
        !word.contains('/'),
        !word.contains('\\'),
    ensures
        friendly_name("exe:"@ + folder + seq![slash] + word + ".exe"@) == word,
{
    reveal_strlit("exe:");
    reveal_strlit(".exe");
    let text = "exe:"@ + folder + seq![slash] + word + ".exe"@;
    let path = folder + seq![slash] + word + ".exe"@;
    let file = word + ".exe"@;
    let n = folder.len() as int + 1;
    assert(text.take(4) =~= "exe:"@);
    assert(text.skip(4) =~= path);
    assert forall|i: int| n <= i < path.len() implies !parts(#[trigger] path[i], true) by {
        if i < n + word.len() {
            assert(path[i] == word[i - n]);
            assert(word.contains(word[i - n]));
        } else {
            assert(path[i] == ".exe"@[i - n - word.len()]);
        }
    }
    assert(parts(path[n - 1], true));
    assert(path.last() == 'e');
    assert(word_end(path, true) == path.len());
    lemma_word_start(path, path.len() as int, n, true);
    assert(last_word(path, true) =~= file);
    assert(file.skip(file.len() - 4) =~= ".exe"@);
    assert(file.take(file.len() - 4) =~= word);
    assert(without_exe(word) == word) by {
        if word.len() >= 4 && word.skip(word.len() - 4) == ".exe"@ {
            assert(word.skip(word.len() - 4)[0] == '.');
            assert(word.contains(word[word.len() - 4]));
        }
    }
}

/// An application goes by the name that it was seen under, and by what is read from
/// what names it where it was not seen.
pub proof fn a_seen_name_goes_first(recent: Seq<ForegroundAppModel>, app: Seq<char>)
    ensures
        seen_as(recent, app) matches Some(name) ==> called(recent, app) == name,
        seen_as(recent, app) is None ==> called(recent, app) == friendly_name(app),
{
}

/// Every saved profile is listed for its application with its overrides. The open one
/// is listed beside them exactly where it is not saved, and overrides nothing then.
pub proof fn saved_profiles_and_the_open_one_are_listed(
    recent: Seq<ForegroundAppModel>,
    profiles: Seq<AppProfileModel>,
    open: Option<Seq<char>>,
    i: int,
)
    requires
        0 <= i < profiles.len(),
        profiles[i].overrides <= usize::MAX,
    ensures
        ({
            let saved = saved_choices(recent, profiles);
            let all = with_open(recent, saved, open);
            &&& saved.len() == profiles.len()
            &&& saved[i].app == profiles[i].app
            &&& saved[i].override_count == profiles[i].overrides
            &&& saved[i].persisted
            &&& saved[i].name == called(recent, profiles[i].app)
            &&& all[i] == saved[i]
            &&& open is None ==> all == saved
            &&& open matches Some(app) ==> {
                &&& lists(saved, app) ==> all == saved
                &&& !lists(saved, app) ==> all.len() == saved.len() + 1 && all.last().app == app
                    && !all.last().persisted && all.last().override_count == 0
            }
        }),
{
}

/// An application that was in front lately is offered a profile, under the name it was
/// seen under, exactly where it has none and none is open for it.
pub proof fn a_recent_app_without_a_profile_is_offered_one(
    recent: Seq<ForegroundAppModel>,
    saved: Seq<ProfileChoiceModel>,
    open: Option<Seq<char>>,
    i: int,
)
    requires
        0 <= i < recent.len(),
    ensures
        ({
            let list = recent_choices(recent, saved, open);
            lists(list, recent[i].id) <==> !lists(saved, recent[i].id) && open != Some(recent[i].id)
        }),
    decreases recent.len(),
{
    let id = recent[i].id;
    lemma_recent_choices(recent, saved, open, id);
    assert(exists|k: int| 0 <= k < recent.len() && (#[trigger] recent[k]).id == id) by {
        assert(recent[i].id == id);
    }
}

proof fn lemma_recent_choices(
    recent: Seq<ForegroundAppModel>,
    saved: Seq<ProfileChoiceModel>,
    open: Option<Seq<char>>,
    id: Seq<char>,
)
    ensures
        lists(recent_choices(recent, saved, open), id) <==> (exists|k: int|
            0 <= k < recent.len() && (#[trigger] recent[k]).id == id) && !lists(saved, id) && open
            != Some(id),
    decreases recent.len(),
{
    let list = recent_choices(recent, saved, open);
    if recent.len() > 0 {
        let rest = recent.drop_last();
        let before = recent_choices(rest, saved, open);
        let last = recent.len() - 1;
        lemma_recent_choices(rest, saved, open, id);
        assert forall|k: int| 0 <= k < rest.len() implies #[trigger] rest[k] == recent[k] by {}
        if exists|k: int| 0 <= k < rest.len() && (#[trigger] rest[k]).id == id {
            let k = choose|k: int| 0 <= k < rest.len() && (#[trigger] rest[k]).id == id;
            assert(recent[k].id == id);
        }
        if exists|k: int| 0 <= k < recent.len() && (#[trigger] recent[k]).id == id {
            let k = choose|k: int| 0 <= k < recent.len() && (#[trigger] recent[k]).id == id;
            if k < last {
                assert(rest[k].id == id);
            }
        }
        if lists(before, id) {
            let k = choose|k: int| 0 <= k < before.len() && (#[trigger] before[k]).app == id;
            assert(list[k].app == id);
        }
        if lists(list, id) {
            let k = choose|k: int| 0 <= k < list.len() && (#[trigger] list[k]).app == id;
            if k < before.len() {
                assert(before[k].app == id);
            } else {
                assert(recent[last].id == id);
            }
        }
        if list.len() > before.len() {
            assert(list[before.len() as int].app == recent.last().id);
        }
    }
}

/// What is counted for the open profile is what it overrides.
pub proof fn the_open_profile_counts_its_overrides(m: StateModel)
    ensures
        editing(m) is None ==> override_total(m) == 0,
        (current_key(m) matches Some(key) && (editing(m) matches Some(app)
            && m.config.devices.contains_key(key) && m.config.devices[key].per_app.contains_key(
            app,
        ))) ==> override_total(m) == m.config.devices[current_key(m)->0].per_app[editing(
            m,
        )->0].len(),
{
}

} // verus!
