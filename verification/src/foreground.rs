//! The application in front, the profiles of applications, and what the agent
//! says of the configuration.

use vstd::prelude::*;

use crate::action::ActionModel;
use crate::config::row_of;
use crate::controls::ButtonId;
use crate::data::Data;
use crate::device::DeviceInventory;
use crate::keyed::in_order;
use crate::state::{
    current_key, issue_text, AppState, ConfigIssue, ForegroundApp, ForegroundAppModel,
    ForegroundApps, ForegroundAppsModel, IssueModel, StateModel,
};

verus! {

/// An application with a profile.
#[derive(Clone, Debug, PartialEq, Eq)]
pub struct AppProfile {
    /// What names the application.
    pub app: String,
    /// How many controls it overrides.
    pub overrides: usize,
}

/// What an [`AppProfile`] holds.
pub ghost struct AppProfileModel {
    pub app: Seq<char>,
    pub overrides: nat,
}

impl DeepView for AppProfile {
    type V = AppProfileModel;

    open spec fn deep_view(&self) -> AppProfileModel {
        AppProfileModel { app: self.app@, overrides: self.overrides as nat }
    }
}

/// The profiles of a device, by application.
pub open spec fn profiles_of(per_app: Map<Seq<char>, Map<ButtonId, ActionModel>>) -> Seq<
    AppProfileModel,
> {
    let apps = in_order::<String, Map<ButtonId, ActionModel>>(per_app);
    Seq::new(
        apps.len(),
        |i: int| AppProfileModel { app: apps[i], overrides: per_app[apps[i]].len() },
    )
}

/// The name that an application was last seen under.
pub open spec fn seen_as(recent: Seq<ForegroundAppModel>, app: Seq<char>) -> Option<Seq<char>>
    decreases recent.len(),
{
    if recent.len() == 0 {
        None
    } else {
        match seen_as(recent.drop_last(), app) {
            Some(name) => Some(name),
            None => if recent.last().id == app {
                Some(recent.last().display_name)
            } else {
                None
            },
        }
    }
}

/// The name of the profile that the selected device runs under: that of the
/// application that was in front last, if it has one. The application in front
/// is this one whenever that is being looked at, so it does not tell.
pub open spec fn active_profile(m: StateModel) -> Option<Seq<char>> {
    match current_key(m) {
        Some(key) => if m.foreground.recent.len() > 0 && row_of(
            m.config,
            key,
        ).per_app.contains_key(m.foreground.recent[0].id) {
            Some(m.foreground.recent[0].display_name)
        } else {
            None
        },
        None => None,
    }
}

/// The issue that is left once the agent said whether it took the
/// configuration. A reading or writing that failed is no matter of the agent's.
pub open spec fn issue_after_reload(
    issue: Option<IssueModel>,
    result: Result<(), Seq<char>>,
) -> Option<IssueModel> {
    match result {
        Err(message) => Some(IssueModel::Reload(message)),
        Ok(_) => if issue matches Some(IssueModel::Reload(_)) {
            None
        } else {
            issue
        },
    }
}

/// What the agent said of the configuration.
pub open spec fn reload_result(result: Result<(), String>) -> Result<(), Seq<char>> {
    match result {
        Ok(_) => Ok(()),
        Err(message) => Err(message@),
    }
}

impl AppState {
    /// Why the configuration needs attention.
    pub fn config_issue(&self) -> (r: Option<&str>)
        ensures
            r.deep_view() == match self.deep_view().config_issue {
                Some(issue) => Some(issue_text(issue)),
                None => None,
            },
    {
        match &self.config_issue {
            Some(issue) => Some(issue.message()),
            None => None,
        }
    }

    /// Record whether the agent took the configuration, saying whether that
    /// changed anything.
    pub fn apply_config_reload_result(&mut self, result: Result<(), String>) -> (r: bool)
        ensures
            final(self).deep_view() == (StateModel {
                config_issue: issue_after_reload(
                    old(self).deep_view().config_issue,
                    reload_result(result),
                ),
                ..old(self).deep_view()
            }),
            r == (issue_after_reload(
                old(self).deep_view().config_issue,
                reload_result(result),
            ) != old(self).deep_view().config_issue),
    {
        match result {
            Err(message) => {
                let same = match &self.config_issue {
                    Some(ConfigIssue::Reload(shown)) => *shown == message,
                    _ => false,
                };
                self.config_issue = Some(ConfigIssue::Reload(message));
                !same
            },
            Ok(_) => {
                let settled = match &self.config_issue {
                    Some(ConfigIssue::Reload(_)) => true,
                    _ => false,
                };
                if settled {
                    self.config_issue = None;
                }
                settled
            },
        }
    }

    /// Keep the last inventory that was complete.
    pub fn store_inventory_snapshot(&mut self, inventory: &Vec<DeviceInventory>)
        ensures
            final(self).deep_view() == (StateModel {
                last_inventory: inventory.deep_view(),
                ..old(self).deep_view()
            }),
    {
        self.last_inventory = inventory.duplicate();
    }

    /// The last inventory that was complete.
    pub fn last_inventory(&self) -> (r: &Vec<DeviceInventory>)
        ensures
            r.deep_view() == self.deep_view().last_inventory,
    {
        &self.last_inventory
    }

    /// The version of the configuration, and how many devices it has settings
    /// for.
    pub fn config_summary(&self) -> (r: (u32, usize))
        ensures
            r.0 == self.deep_view().config.schema_version,
            r.1 == self.deep_view().config.devices.len(),
    {
        (self.config.schema_version, self.config.devices.len())
    }

    /// The profiles that the selected device has, by application.
    pub fn app_profiles(&self) -> (r: Vec<AppProfile>)
        ensures
            r.deep_view() == match current_key(self.deep_view()) {
                Some(key) => profiles_of(row_of(self.deep_view().config, key).per_app),
                None => Seq::empty(),
            },
    {
        let mut r: Vec<AppProfile> = Vec::new();
        match self.current_config_key() {
            None => {
                proof {
                    assert(r.deep_view() =~= Seq::empty());
                }
            },
            Some(key) => {
                let row = self.config.row(&key);
                let ghost per_app = row.deep_view().per_app;
                let ghost apps = row.per_app.keys();
                let n: usize = row.per_app.len();
                let mut i: usize = 0;
                while i < n
                    invariant
                        i <= n,
                        n == apps.len(),
                        apps == row.per_app.keys(),
                        per_app == row.per_app.deep_view(),
                        r@.len() == i,
                        forall|k: int|
                            0 <= k < i ==> (#[trigger] r@[k]).deep_view() == (AppProfileModel {
                                app: apps[k],
                                overrides: per_app[apps[k]].len(),
                            }),
                    decreases n - i,
                {
                    let app = row.per_app.key_at(i).clone();
                    let overrides = row.per_app.value_at(i).len();
                    r.push(AppProfile { app, overrides });
                    i = i + 1;
                }
                proof {
                    assert(r.deep_view() =~= profiles_of(per_app));
                }
            },
        }
        r
    }

    /// The applications that were in front, the newest first.
    pub fn recent_apps(&self) -> (r: &Vec<ForegroundApp>)
        ensures
            r.deep_view() == self.deep_view().foreground.recent,
    {
        &self.foreground.recent
    }

    /// The name that an application was last seen under, if it was seen.
    pub fn recent_app_name(&self, app: &String) -> (r: Option<String>)
        ensures
            r.deep_view() == seen_as(self.deep_view().foreground.recent, app@),
    {
        let ghost all = self.foreground.recent.deep_view();
        let mut r: Option<String> = None;
        let mut i: usize = 0;
        proof {
            assert(all.take(0) =~= Seq::empty());
        }
        while i < self.foreground.recent.len()
            invariant
                i <= self.foreground.recent@.len(),
                all == self.foreground.recent.deep_view(),
                r.deep_view() == seen_as(all.take(i as int), app@),
            decreases self.foreground.recent@.len() - i,
        {
            let seen = &self.foreground.recent[i];
            proof {
                assert(all.take(i as int + 1).drop_last() =~= all.take(i as int));
                assert(all.take(i as int + 1).last() == seen.deep_view());
            }
            if r.is_none() && seen.id == *app {
                r = Some(seen.display_name.clone());
            }
            i = i + 1;
        }
        proof {
            assert(all.take(all.len() as int) =~= all);
        }
        r
    }

    /// Take over what the agent saw in front, saying whether that changed
    /// anything.
    pub fn set_foreground(&mut self, foreground: ForegroundApps) -> (r: bool)
        ensures
            final(self).deep_view() == (StateModel {
                foreground: foreground.deep_view(),
                ..old(self).deep_view()
            }),
            r == (foreground.deep_view() != old(self).deep_view().foreground),
    {
        let changed = !self.foreground.same(&foreground);
        self.foreground = foreground;
        changed
    }

    /// The name of the profile that the selected device runs under, or `None`
    /// for that of every application.
    pub fn active_profile_name(&self) -> (r: Option<String>)
        ensures
            r.deep_view() == active_profile(self.deep_view()),
    {
        let key = match self.current_config_key() {
            Some(key) => key,
            None => {
                return None;
            },
        };
        if self.foreground.recent.len() == 0 {
            return None;
        }
        let app = &self.foreground.recent[0];
        proof {
            assert(self.deep_view().foreground.recent[0] == app.deep_view());
        }
        if self.config.has_app_override(&key, &app.id) {
            Some(app.display_name.clone())
        } else {
            None
        }
    }
}

/// A refusal of the agent's stays visible until the agent takes a configuration,
/// and taking one never clears an issue of another kind.
pub proof fn a_refusal_stays_until_it_is_settled(issue: Option<IssueModel>, message: Seq<char>)
    ensures
        ({
            let told = issue_after_reload(issue, Err(message));
            &&& told == Some(IssueModel::Reload(message))
            &&& issue_after_reload(told, Ok(())) is None
        }),
        issue matches Some(IssueModel::Persistence(m)) ==> issue_after_reload(issue, Ok(()))
            == issue,
{
}

/// Which application is in front makes no difference to the profile that is
/// shown, only which was in front last of the others.
pub proof fn the_profile_is_that_of_the_app_before(
    m: StateModel,
    current: Option<ForegroundAppModel>,
)
    ensures
        active_profile(
            StateModel { foreground: ForegroundAppsModel { current, ..m.foreground }, ..m },
        ) == active_profile(m),
{
}

/// An application goes by the name that it was last seen under, and by none if it was
/// not seen.
pub proof fn an_app_goes_by_its_newest_name(recent: Seq<ForegroundAppModel>, app: Seq<char>)
    ensures
        match seen_as(recent, app) {
            Some(name) => exists|i: int|
                0 <= i < recent.len() && (#[trigger] recent[i]).id == app && recent[i].display_name
                    == name && forall|j: int| 0 <= j < i ==> (#[trigger] recent[j]).id != app,
            None => forall|j: int| 0 <= j < recent.len() ==> (#[trigger] recent[j]).id != app,
        },
    decreases recent.len(),
{
    if recent.len() > 0 {
        let rest = recent.drop_last();
        let last = recent.len() - 1;
        an_app_goes_by_its_newest_name(rest, app);
        assert forall|j: int| 0 <= j < rest.len() implies #[trigger] rest[j] == recent[j] by {}
        match seen_as(rest, app) {
            Some(name) => {
                let i = choose|i: int|
                    0 <= i < rest.len() && (#[trigger] rest[i]).id == app && rest[i].display_name
                        == name && forall|j: int| 0 <= j < i ==> (#[trigger] rest[j]).id != app;
                assert(recent[i].id == app);
                assert forall|j: int| 0 <= j < i implies (#[trigger] recent[j]).id != app by {
                    assert(rest[j] == recent[j]);
                }
            },
            None => {
                assert forall|j: int| 0 <= j < last implies (#[trigger] recent[j]).id != app by {
                    assert(rest[j] == recent[j]);
                }
                if recent.last().id == app {
                    assert(recent[last].id == app);
                }
            },
        }
    }
}

/// The profile that is active is that of the application in front last, exactly if
/// the selected device has a profile for it.
pub proof fn the_active_profile_is_that_of_the_newest_app(m: StateModel)
    ensures
        active_profile(m) is Some <==> (current_key(m) matches Some(key) && m.foreground.recent.len()
            > 0 && m.config.devices.contains_key(key)
            && m.config.devices[key].per_app.contains_key(m.foreground.recent[0].id)),
        active_profile(m) matches Some(name) ==> name == m.foreground.recent[0].display_name,
{
}

/// What the agent says of a configuration is told as it said it. That it was taken
/// settles a refusal and nothing else.
pub proof fn a_reload_is_told_as_it_went(issue: Option<IssueModel>, message: String)
    ensures
        reload_result(Ok(())) is Ok,
        reload_result(Err(message)) == Err::<(), Seq<char>>(message@),
        issue_after_reload(issue, Err(message@)) == Some(IssueModel::Reload(message@)),
        issue is None ==> issue_after_reload(issue, Ok(())) is None,
        issue_text(IssueModel::Reload(message@)) == message@,
        issue_text(IssueModel::Persistence(message@)) == message@,
{
}

/// Every profile of a device is listed with how many controls it overrides.
pub proof fn a_profile_is_listed_with_its_overrides(
    per_app: Map<Seq<char>, Map<ButtonId, ActionModel>>,
    i: int,
)
    requires
        0 <= i < profiles_of(per_app).len(),
    ensures
        profiles_of(per_app)[i].overrides == per_app[profiles_of(per_app)[i].app].len(),
        profiles_of(per_app).len() == in_order::<String, Map<ButtonId, ActionModel>>(
            per_app,
        ).len(),
        profiles_of(per_app)[i].app == in_order::<String, Map<ButtonId, ActionModel>>(per_app)[i],
{
}

} // verus!
