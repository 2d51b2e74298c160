//! The menus of the application and the keys of what is in them.

use vstd::prelude::*;
use vstd::utf8::encode_utf8;

use crate::data::Data;
use crate::device::{DeviceRecord, DeviceRecordModel};
use crate::ipc::is_simple;
use crate::keyed::is_among;
use crate::text::{concat, decimal, decimal_of};

verus! {

/// What a menu or a key can ask for.
#[derive(Clone, Copy, Debug, PartialEq, Eq, Structural)]
pub enum MenuAction {
    /// Close the window in front.
    CloseWindow,
    /// Bring all windows to the front.
    BringAllToFront,
    /// Look for an update.
    CheckForUpdates,
    /// Hide this application.
    HideApp,
    /// Hide every other application.
    HideOthers,
    /// Minimize the window in front.
    Minimize,
    /// Go back from a device to the gallery.
    NavigateBack,
    OpenAbout,
    OpenAddDevice,
    OpenConfigFolder,
    OpenHelp,
    OpenLatestRelease,
    OpenRepository,
    OpenSettings,
    Quit,
    /// Show every hidden application.
    ShowAll,
    /// Maximize the window in front.
    Zoom,
    Undo,
    Redo,
    Cut,
    Copy,
    Paste,
    SelectAll,
}

/// An item of a menu. Titles are in English, to be translated.
#[derive(Clone, Debug, PartialEq, Eq)]
pub enum MenuItem {
    Separator,
    /// The services of the system.
    Services,
    Does { title: String, action: MenuAction },
    /// Something to read.
    Note { title: String },
}

/// What a [`MenuItem`] holds.
pub ghost enum ItemModel {
    Separator,
    Services,
    Does(Seq<char>, MenuAction),
    Note(Seq<char>),
}

impl DeepView for MenuItem {
    type V = ItemModel;

    open spec fn deep_view(&self) -> ItemModel {
        match self {
            MenuItem::Separator => ItemModel::Separator,
            MenuItem::Services => ItemModel::Services,
            MenuItem::Does { title, action } => ItemModel::Does(title@, *action),
            MenuItem::Note { title } => ItemModel::Note(title@),
        }
    }
}

/// A menu.
#[derive(Clone, Debug, PartialEq, Eq)]
pub struct Menu {
    pub name: String,
    pub items: Vec<MenuItem>,
}

/// What a [`Menu`] holds.
pub ghost struct MenuModel {
    pub name: Seq<char>,
    pub items: Seq<ItemModel>,
}

impl DeepView for Menu {
    type V = MenuModel;

    open spec fn deep_view(&self) -> MenuModel {
        MenuModel { name: self.name@, items: self.items.deep_view() }
    }
}

fn does(title: &str, action: MenuAction) -> (r: MenuItem)
    ensures
        r.deep_view() == ItemModel::Does(title@, action),
{
    MenuItem::Does { title: title.to_owned(), action }
}

/// The menu of the application itself.
pub open spec fn app_items(mac: bool) -> Seq<ItemModel> {
    if mac {
        seq![
            ItemModel::Does("About OpenLogi"@, MenuAction::OpenAbout),
            ItemModel::Does("Check for Updates…"@, MenuAction::CheckForUpdates),
            ItemModel::Separator,
            ItemModel::Does("Settings…"@, MenuAction::OpenSettings),
            ItemModel::Separator,
            ItemModel::Services,
            ItemModel::Separator,
            ItemModel::Does("Hide OpenLogi"@, MenuAction::HideApp),
            ItemModel::Does("Hide Others"@, MenuAction::HideOthers),
            ItemModel::Does("Show All"@, MenuAction::ShowAll),
            ItemModel::Separator,
            ItemModel::Does("Quit OpenLogi"@, MenuAction::Quit),
        ]
    } else {
        seq![
            ItemModel::Does("About OpenLogi"@, MenuAction::OpenAbout),
            ItemModel::Does("Check for Updates…"@, MenuAction::CheckForUpdates),
            ItemModel::Separator,
            ItemModel::Does("Settings…"@, MenuAction::OpenSettings),
            ItemModel::Does("Quit OpenLogi"@, MenuAction::Quit),
        ]
    }
}

fn app_menu(mac: bool) -> (r: Vec<MenuItem>)
    ensures
        r.deep_view() == app_items(mac),
{
    let r = if mac {
        vec![
            does("About OpenLogi", MenuAction::OpenAbout),
            does("Check for Updates…", MenuAction::CheckForUpdates),
            MenuItem::Separator,
            does("Settings…", MenuAction::OpenSettings),
            MenuItem::Separator,
            MenuItem::Services,
            MenuItem::Separator,
            does("Hide OpenLogi", MenuAction::HideApp),
            does("Hide Others", MenuAction::HideOthers),
            does("Show All", MenuAction::ShowAll),
            MenuItem::Separator,
            does("Quit OpenLogi", MenuAction::Quit),
        ]
    } else {
        vec![
            does("About OpenLogi", MenuAction::OpenAbout),
            does("Check for Updates…", MenuAction::CheckForUpdates),
            MenuItem::Separator,
            does("Settings…", MenuAction::OpenSettings),
            does("Quit OpenLogi", MenuAction::Quit),
        ]
    };
    proof {
        assert(r.deep_view() =~= app_items(mac));
    }
    r
}

/// The menu called Edit.
pub open spec fn edit_items() -> Seq<ItemModel> {
    seq![
        ItemModel::Does("Undo"@, MenuAction::Undo),
        ItemModel::Does("Redo"@, MenuAction::Redo),
        ItemModel::Separator,
        ItemModel::Does("Cut"@, MenuAction::Cut),
        ItemModel::Does("Copy"@, MenuAction::Copy),
        ItemModel::Does("Paste"@, MenuAction::Paste),
        ItemModel::Separator,
        ItemModel::Does("Select All"@, MenuAction::SelectAll),
    ]
}

fn edit_menu() -> (r: Vec<MenuItem>)
    ensures
        r.deep_view() == edit_items(),
{
    let r = vec![
        does("Undo", MenuAction::Undo),
        does("Redo", MenuAction::Redo),
        MenuItem::Separator,
        does("Cut", MenuAction::Cut),
        does("Copy", MenuAction::Copy),
        does("Paste", MenuAction::Paste),
        MenuItem::Separator,
        does("Select All", MenuAction::SelectAll),
    ];
    proof {
        assert(r.deep_view() =~= edit_items());
    }
    r
}

/// The menu called View.
pub open spec fn view_items() -> Seq<ItemModel> {
    seq![
        ItemModel::Does("Settings…"@, MenuAction::OpenSettings),
        ItemModel::Does("About OpenLogi"@, MenuAction::OpenAbout),
        ItemModel::Separator,
        ItemModel::Does("Open Configuration Folder"@, MenuAction::OpenConfigFolder),
    ]
}

fn view_menu() -> (r: Vec<MenuItem>)
    ensures
        r.deep_view() == view_items(),
{
    let r = vec![
        does("Settings…", MenuAction::OpenSettings),
        does("About OpenLogi", MenuAction::OpenAbout),
        MenuItem::Separator,
        does("Open Configuration Folder", MenuAction::OpenConfigFolder),
    ];
    proof {
        assert(r.deep_view() =~= view_items());
    }
    r
}

/// The menu called Window.
pub open spec fn window_items() -> Seq<ItemModel> {
    seq![
        ItemModel::Does("Close Window"@, MenuAction::CloseWindow),
        ItemModel::Separator,
        ItemModel::Does("Minimize"@, MenuAction::Minimize),
        ItemModel::Does("Zoom"@, MenuAction::Zoom),
        ItemModel::Separator,
        ItemModel::Does("Bring All to Front"@, MenuAction::BringAllToFront),
    ]
}

fn window_menu() -> (r: Vec<MenuItem>)
    ensures
        r.deep_view() == window_items(),
{
    let r = vec![
        does("Close Window", MenuAction::CloseWindow),
        MenuItem::Separator,
        does("Minimize", MenuAction::Minimize),
        does("Zoom", MenuAction::Zoom),
        MenuItem::Separator,
        does("Bring All to Front", MenuAction::BringAllToFront),
    ];
    proof {
        assert(r.deep_view() =~= window_items());
    }
    r
}

/// The menu called Help.
pub open spec fn help_items() -> Seq<ItemModel> {
    seq![
        ItemModel::Does("OpenLogi Help"@, MenuAction::OpenHelp),
        ItemModel::Separator,
        ItemModel::Does("Open GitHub Repository"@, MenuAction::OpenRepository),
        ItemModel::Does("Latest Release"@, MenuAction::OpenLatestRelease),
    ]
}

fn help_menu() -> (r: Vec<MenuItem>)
    ensures
        r.deep_view() == help_items(),
{
    let r = vec![
        does("OpenLogi Help", MenuAction::OpenHelp),
        MenuItem::Separator,
        does("Open GitHub Repository", MenuAction::OpenRepository),
        does("Latest Release", MenuAction::OpenLatestRelease),
    ];
    proof {
        assert(r.deep_view() =~= help_items());
    }
    r
}

/// What a menu says of a device. `charging` is the word for a battery that
/// charges and does not say how far.
pub open spec fn device_title(
    record: DeviceRecordModel,
    no_reading: bool,
    charging: Seq<char>,
) -> Seq<char> {
    match record.battery {
        Some(battery) => if no_reading {
            record.display_name + " · "@ + charging
        } else {
            record.display_name + " · "@ + decimal_of(battery.percentage as nat) + "%"@
        },
        None => record.display_name,
    }
}

fn title_of(record: &DeviceRecord, no_reading: bool, charging: &str) -> (r: String)
    ensures
        r@ == device_title(record.deep_view(), no_reading, charging@),
{
    match &record.battery {
        Some(battery) => {
            let head = concat(record.display_name.as_str(), " · ");
            if no_reading {
                concat(head.as_str(), charging)
            } else {
                let charge = decimal(battery.percentage as u64);
                concat(concat(head.as_str(), charge.as_str()).as_str(), "%")
            }
        },
        None => record.display_name.duplicate(),
    }
}

/// What a menu says of the devices that there are. `unread` are the keys of
/// those whose battery charges and does not say how far.
pub open spec fn device_notes(
    records: Seq<DeviceRecordModel>,
    unread: Seq<Seq<char>>,
    charging: Seq<char>,
) -> Seq<ItemModel> {
    if records.len() == 0 {
        seq![ItemModel::Note("No devices connected"@)]
    } else {
        Seq::new(
            records.len(),
            |i: int|
                ItemModel::Note(
                    device_title(records[i], unread.contains(records[i].record_key), charging),
                ),
        )
    }
}

/// The menu of devices.
pub open spec fn device_items(
    records: Seq<DeviceRecordModel>,
    unread: Seq<Seq<char>>,
    charging: Seq<char>,
) -> Seq<ItemModel> {
    seq![ItemModel::Does("Add Device…"@, MenuAction::OpenAddDevice), ItemModel::Separator]
        + device_notes(records, unread, charging)
}

/// The menu of devices: adding one, and what there are.
pub fn device_menu_items(records: &Vec<DeviceRecord>, unread: &Vec<String>, charging: &str) -> (r:
    Vec<MenuItem>)
    ensures
        r.deep_view() == device_items(records.deep_view(), unread.deep_view(), charging@),
{
    let ghost all = records.deep_view();
    let ghost u = unread.deep_view();
    let ghost notes = device_notes(all, u, charging@);
    let mut r: Vec<MenuItem> = Vec::new();
    r.push(does("Add Device…", MenuAction::OpenAddDevice));
    r.push(MenuItem::Separator);
    let ghost head = seq![
        ItemModel::Does("Add Device…"@, MenuAction::OpenAddDevice),
        ItemModel::Separator,
    ];
    proof {
        assert(r.deep_view() =~= head);
    }
    if records.len() == 0 {
        r.push(MenuItem::Note { title: "No devices connected".to_owned() });
        proof {
            assert(r.deep_view() =~= head + notes);
        }
        return r;
    }
    let mut i: usize = 0;
    proof {
        assert(head + notes.take(0) =~= head);
    }
    while i < records.len()
        invariant
            i <= records@.len(),
            records@.len() > 0,
            all == records.deep_view(),
            u == unread.deep_view(),
            notes == device_notes(all, u, charging@),
            r.deep_view() == head + notes.take(i as int),
        decreases records@.len() - i,
    {
        let record = &records[i];
        let ghost was = r.deep_view();
        proof {
            assert(all[i as int] == record.deep_view());
        }
        let no_reading = is_among(&record.record_key, unread);
        let title = title_of(record, no_reading, charging);
        let ghost note = ItemModel::Note(title@);
        r.push(MenuItem::Note { title });
        proof {
            assert(r.deep_view() =~= was.push(note));
            assert(note == notes[i as int]);
            assert(head + notes.take(i as int + 1) =~= was.push(notes[i as int]));
        }
        i = i + 1;
    }
    proof {
        assert(notes.take(notes.len() as int) =~= notes);
    }
    r
}

/// The menus.
pub open spec fn menus_of(
    mac: bool,
    records: Seq<DeviceRecordModel>,
    unread: Seq<Seq<char>>,
    charging: Seq<char>,
) -> Seq<MenuModel> {
    seq![
        MenuModel { name: "OpenLogi"@, items: app_items(mac) },
        MenuModel { name: "Edit"@, items: edit_items() },
        MenuModel { name: "View"@, items: view_items() },
        MenuModel { name: "Device"@, items: device_items(records, unread, charging) },
        MenuModel { name: "Window"@, items: window_items() },
        MenuModel { name: "Help"@, items: help_items() },
    ]
}

fn menu(name: &str, items: Vec<MenuItem>) -> (r: Menu)
    ensures
        r.deep_view() == (MenuModel { name: name@, items: items.deep_view() }),
{
    Menu { name: name.to_owned(), items }
}

/// The menus.
pub fn menus(mac: bool, records: &Vec<DeviceRecord>, unread: &Vec<String>, charging: &str) -> (r:
    Vec<Menu>)
    ensures
        r.deep_view() == menus_of(mac, records.deep_view(), unread.deep_view(), charging@),
{
    let mut r: Vec<Menu> = Vec::new();
    r.push(menu("OpenLogi", app_menu(mac)));
    r.push(menu("Edit", edit_menu()));
    r.push(menu("View", view_menu()));
    r.push(menu("Device", device_menu_items(records, unread, charging)));
    r.push(menu("Window", window_menu()));
    r.push(menu("Help", help_menu()));
    proof {
        assert(r.deep_view() =~= menus_of(
            mac,
            records.deep_view(),
            unread.deep_view(),
            charging@,
        ));
    }
    r
}

/// A key and what it asks for.
#[derive(Clone, Copy, Debug, PartialEq, Eq)]
pub struct KeyBinding {
    pub keystroke: &'static str,
    pub action: MenuAction,
    /// Whether it counts only on the main surface of the application.
    pub main_surface: bool,
}

impl DeepView for KeyBinding {
    type V = (Seq<char>, MenuAction, bool);

    open spec fn deep_view(&self) -> (Seq<char>, MenuAction, bool) {
        (self.keystroke@, self.action, self.main_surface)
    }
}

fn key(keystroke: &'static str, action: MenuAction, main_surface: bool) -> (r: KeyBinding)
    ensures
        r.deep_view() == (keystroke@, action, main_surface),
{
    KeyBinding { keystroke, action, main_surface }
}

/// The keys.
pub open spec fn keys_of(mac: bool) -> Seq<(Seq<char>, MenuAction, bool)> {
    if mac {
        seq![
            ("cmd-q"@, MenuAction::Quit, false),
            ("cmd-z"@, MenuAction::Undo, false),
            ("cmd-shift-z"@, MenuAction::Redo, false),
            ("cmd-x"@, MenuAction::Cut, false),
            ("cmd-c"@, MenuAction::Copy, false),
            ("cmd-v"@, MenuAction::Paste, false),
            ("cmd-a"@, MenuAction::SelectAll, false),
            ("cmd-h"@, MenuAction::HideApp, false),
            ("cmd-alt-h"@, MenuAction::HideOthers, false),
            ("cmd-m"@, MenuAction::Minimize, false),
            ("cmd-w"@, MenuAction::CloseWindow, false),
            ("cmd-,"@, MenuAction::OpenSettings, false),
            ("alt-left"@, MenuAction::NavigateBack, true),
        ]
    } else {
        seq![
            ("cmd-q"@, MenuAction::Quit, false),
            ("cmd-z"@, MenuAction::Undo, false),
            ("cmd-shift-z"@, MenuAction::Redo, false),
            ("cmd-x"@, MenuAction::Cut, false),
            ("cmd-c"@, MenuAction::Copy, false),
            ("cmd-v"@, MenuAction::Paste, false),
            ("cmd-a"@, MenuAction::SelectAll, false),
            ("cmd-m"@, MenuAction::Minimize, false),
            ("cmd-w"@, MenuAction::CloseWindow, false),
            ("cmd-,"@, MenuAction::OpenSettings, false),
            ("alt-left"@, MenuAction::NavigateBack, true),
        ]
    }
}

/// The keys. Hiding is for a host that hides applications.
pub fn key_bindings(mac: bool) -> (r: Vec<KeyBinding>)
    ensures
        r.deep_view() == keys_of(mac),
{
    let r = if mac {
        vec![
            key("cmd-q", MenuAction::Quit, false),
            key("cmd-z", MenuAction::Undo, false),
            key("cmd-shift-z", MenuAction::Redo, false),
            key("cmd-x", MenuAction::Cut, false),
            key("cmd-c", MenuAction::Copy, false),
            key("cmd-v", MenuAction::Paste, false),
            key("cmd-a", MenuAction::SelectAll, false),
            key("cmd-h", MenuAction::HideApp, false),
            key("cmd-alt-h", MenuAction::HideOthers, false),
            key("cmd-m", MenuAction::Minimize, false),
            key("cmd-w", MenuAction::CloseWindow, false),
            key("cmd-,", MenuAction::OpenSettings, false),
            key("alt-left", MenuAction::NavigateBack, true),
        ]
    } else {
        vec![
            key("cmd-q", MenuAction::Quit, false),
            key("cmd-z", MenuAction::Undo, false),
            key("cmd-shift-z", MenuAction::Redo, false),
            key("cmd-x", MenuAction::Cut, false),
            key("cmd-c", MenuAction::Copy, false),
            key("cmd-v", MenuAction::Paste, false),
            key("cmd-a", MenuAction::SelectAll, false),
            key("cmd-m", MenuAction::Minimize, false),
            key("cmd-w", MenuAction::CloseWindow, false),
            key("cmd-,", MenuAction::OpenSettings, false),
            key("alt-left", MenuAction::NavigateBack, true),
        ]
    };
    proof {
        assert(r.deep_view() =~= keys_of(mac));
    }
    r
}

/// Whether a path is relative on every host: it begins with no separator and
/// names no drive.
pub open spec fn is_relative(path: Seq<char>) -> bool {
    &&& path.len() > 0 ==> path[0] != '/' && path[0] != '\\'
    &&& forall|i: int| 0 <= i < path.len() ==> #[trigger] path[i] != ':'
}

/// Whether a path is absolute by its first slash, and every host that takes it
/// for absolute reads the same components in it.
pub open spec fn is_rooted(path: Seq<char>) -> bool {
    is_simple(path) && path.len() > 0 && path[0] == '/'
}

/// The digit of a number below sixteen, with capital letters.
pub open spec fn upper_hex(n: int) -> char {
    "0123456789ABCDEF"@[n]
}

/// How a byte of a path is written in a URL: as it is if it is a visible ASCII
/// character without a meaning of its own there, and else by its number.
pub open spec fn url_byte(byte: u8) -> Seq<char> {
    let c = byte as char;
    if 0x21 <= byte <= 0x7e && !"\"#%<>?\\`{}"@.contains(c) {
        seq![c]
    } else {
        seq!['%', upper_hex(byte as int / 16), upper_hex(byte as int % 16)]
    }
}

/// How the bytes of a path are written in a URL.
pub open spec fn url_bytes(bytes: Seq<u8>) -> Seq<char>
    decreases bytes.len(),
{
    if bytes.len() == 0 {
        Seq::empty()
    } else {
        url_bytes(bytes.drop_last()) + url_byte(bytes.last())
    }
}

/// Whether a text can be the URL of a path: it is in the `file` scheme, the path
/// is not relative, and a rooted path is written out component by component.
pub open spec fn is_url_of(url: Seq<char>, path: Seq<char>) -> bool {
    &&& !is_relative(path)
    &&& url.len() > 7
    &&& url.take(7) == "file://"@
    &&& is_rooted(path) ==> url == "file://"@ + url_bytes(encode_utf8(path))
}

/// Whether a path begins with two separators, so that some hosts read the name
/// of a server in it.
pub open spec fn may_name_a_server(path: Seq<char>) -> bool {
    &&& path.len() >= 2
    &&& path[0] == '/' || path[0] == '\\'
    &&& path[1] == '/' || path[1] == '\\'
}

/// Whether the name of the server that a path may hold fits in a URL. A
/// URL counts the end of its server in bytes, with 32 bits, behind seven bytes of
/// scheme, and a name written in ASCII takes less than 64 times its bytes.
pub open spec fn server_fits(path: Seq<char>) -> bool {
    may_name_a_server(path) ==> 64 * encode_utf8(path).len() + 7 <= u32::MAX
}

/// `url::Url::from_file_path`: the URL of a file, in the `file` scheme, or
/// `None` for a path that is not absolute. The URL of a path that begins with a
/// slash is that path with its special bytes escaped. Whether the host takes
/// such a path for absolute is left unsaid, and so is how paths with drives,
/// backslashes, doubled or trailing slashes, `.` or `..` are written: that
/// differs between hosts. It panics where the end of a server's name is past
/// what 32 bits count.
#[verifier::external_body]
fn url_from_file_path(path: &str) -> (r: Option<String>)
    requires
        server_fits(path@),
    ensures
        is_relative(path@) ==> r is None,
        r matches Some(url) ==> is_url_of(url@, path@),
{
    url::Url::from_file_path(path).ok().map(String::from)
}

/// The URL of a file, or `None` if its path is not absolute.
pub fn file_url(path: &str) -> (r: Option<String>)
    requires
        server_fits(path@),
    ensures
        is_relative(path@) ==> r is None,
        r matches Some(url) ==> is_url_of(url@, path@),
{
    url_from_file_path(path)
}

/// Whether the name of the server that a path may hold fits in a URL.
pub fn has_room(path: &str) -> (r: bool)
    ensures
        r == server_fits(path@),
{
    if path.unicode_len() < 2 {
        return true;
    }
    let first = path.get_char(0);
    let second = path.get_char(1);
    if (first != '/' && first != '\\') || (second != '/' && second != '\\') {
        return true;
    }
    path.as_bytes().len() <= 0x3ff_ffff
}

/// What is opened for the folder of the configuration, given the URL that its
/// path has.
pub fn opened_folder(path: &Option<String>, url: Option<String>) -> (r: Option<String>)
    ensures
        r == (if path is Some {
            url
        } else {
            None
        }),
{
    match path {
        Some(_) => url,
        None => None,
    }
}

/// What asks for opening the folder of the configuration: its URL, or `None`
/// where there is nothing to open or its path is not absolute.
pub fn config_folder_url(path: Option<String>) -> (r: Option<String>)
    requires
        path matches Some(p) ==> server_fits(p@),
    ensures
        match path {
            None => r is None,
            Some(p) => {
                &&& is_relative(p@) ==> r is None
                &&& r matches Some(url) ==> is_url_of(url@, p@)
            },
        },
{
    let url = match &path {
        Some(path) => file_url(path.as_str()),
        None => None,
    };
    opened_folder(&path, url)
}

/// There is always something to read in the menu of devices.
pub proof fn the_device_menu_is_never_empty(
    records: Seq<DeviceRecordModel>,
    unread: Seq<Seq<char>>,
    charging: Seq<char>,
)
    ensures
        device_notes(records, unread, charging).len() == if records.len() == 0 {
            1
        } else {
            records.len()
        },
{
}

/// Every device is in the menu under its name, with how full its battery is where that
/// is told.
pub proof fn every_device_is_in_the_menu(
    records: Seq<DeviceRecordModel>,
    unread: Seq<Seq<char>>,
    charging: Seq<char>,
    i: int,
)
    requires
        0 <= i < records.len(),
    ensures
        device_notes(records, unread, charging).len() == records.len(),
        device_notes(records, unread, charging)[i] matches ItemModel::Note(text) && text.len()
            >= records[i].display_name.len() && text.take(records[i].display_name.len() as int)
            == records[i].display_name && (records[i].battery is None ==> text
            == records[i].display_name) && (records[i].battery is Some && unread.contains(
            records[i].record_key,
        ) ==> text == records[i].display_name + " · "@ + charging) && (records[i].battery is Some
            && !unread.contains(records[i].record_key) ==> text == records[i].display_name + " · "@
            + decimal_of(records[i].battery->0.percentage as nat) + "%"@),
        device_items(records, unread, charging)[i + 2] == device_notes(
            records,
            unread,
            charging,
        )[i],
        device_items(records, unread, charging)[0] == ItemModel::Does(
            "Add Device…"@,
            MenuAction::OpenAddDevice,
        ),
{
    let text = device_title(records[i], unread.contains(records[i].record_key), charging);
    assert(text.take(records[i].display_name.len() as int) =~= records[i].display_name);
}

/// Whether a menu has an item for an action.
pub open spec fn offers(items: Seq<ItemModel>, action: MenuAction) -> bool {
    exists|i: int|
        0 <= i < items.len() && ((#[trigger] items[i]) matches ItemModel::Does(_, does) && does
            == action)
}

/// The menus of every host quit the application, open its settings and its window about
/// it, look for updates, edit, add a device, open the folder of the configuration and
/// help, and close the window. Hiding is on the hosts that hide applications alone.
pub proof fn the_menus_offer_what_there_is(
    mac: bool,
    records: Seq<DeviceRecordModel>,
    unread: Seq<Seq<char>>,
    charging: Seq<char>,
)
    ensures
        ({
            let menus = menus_of(mac, records, unread, charging);
            &&& menus.len() == 6
            &&& offers(menus[0].items, MenuAction::Quit)
            &&& offers(menus[0].items, MenuAction::OpenSettings)
            &&& offers(menus[0].items, MenuAction::OpenAbout)
            &&& offers(menus[0].items, MenuAction::CheckForUpdates)
            &&& offers(menus[0].items, MenuAction::HideApp) <==> mac
            &&& offers(menus[1].items, MenuAction::Undo)
            &&& offers(menus[1].items, MenuAction::Redo)
            &&& offers(menus[1].items, MenuAction::Cut)
            &&& offers(menus[1].items, MenuAction::Copy)
            &&& offers(menus[1].items, MenuAction::Paste)
            &&& offers(menus[1].items, MenuAction::SelectAll)
            &&& offers(menus[2].items, MenuAction::OpenConfigFolder)
            &&& offers(menus[3].items, MenuAction::OpenAddDevice)
            &&& offers(menus[4].items, MenuAction::CloseWindow)
            &&& offers(menus[4].items, MenuAction::Minimize)
            &&& offers(menus[5].items, MenuAction::OpenHelp)
            &&& menus[3].items == device_items(records, unread, charging)
        }),
{
    let menus = menus_of(mac, records, unread, charging);
    let app = menus[0].items;
    let last = app.len() - 1;
    assert(app[0] matches ItemModel::Does(_, does) && does == MenuAction::OpenAbout);
    assert(app[1] matches ItemModel::Does(_, does) && does == MenuAction::CheckForUpdates);
    assert(app[3] matches ItemModel::Does(_, does) && does == MenuAction::OpenSettings);
    assert(app[last] matches ItemModel::Does(_, does) && does == MenuAction::Quit);
    if mac {
        assert(app[7] matches ItemModel::Does(_, does) && does == MenuAction::HideApp);
    }
    let edit = menus[1].items;
    assert(edit[0] matches ItemModel::Does(_, does) && does == MenuAction::Undo);
    assert(edit[1] matches ItemModel::Does(_, does) && does == MenuAction::Redo);
    assert(edit[3] matches ItemModel::Does(_, does) && does == MenuAction::Cut);
    assert(edit[4] matches ItemModel::Does(_, does) && does == MenuAction::Copy);
    assert(edit[5] matches ItemModel::Does(_, does) && does == MenuAction::Paste);
    assert(edit[7] matches ItemModel::Does(_, does) && does == MenuAction::SelectAll);
    assert(menus[2].items[3] matches ItemModel::Does(_, does) && does
        == MenuAction::OpenConfigFolder);
    assert(menus[3].items[0] matches ItemModel::Does(_, does) && does
        == MenuAction::OpenAddDevice);
    assert(menus[4].items[0] matches ItemModel::Does(_, does) && does == MenuAction::CloseWindow);
    assert(menus[4].items[2] matches ItemModel::Does(_, does) && does == MenuAction::Minimize);
    assert(menus[5].items[0] matches ItemModel::Does(_, does) && does == MenuAction::OpenHelp);
}

/// No two keys stand for the same action.
pub proof fn every_key_has_an_action_of_its_own(mac: bool, i: int, j: int)
    requires
        0 <= i < j < keys_of(mac).len(),
    ensures
        keys_of(mac)[i].1 != keys_of(mac)[j].1,
{
}

/// The URL of a rooted path is the path itself behind the scheme where none of its
/// bytes means anything in a URL, and it is longer than the path otherwise.
pub proof fn a_plain_path_is_its_own_url(bytes: Seq<u8>, byte: u8)
    ensures
        url_bytes(bytes).len() >= bytes.len(),
        url_byte(byte).len() == 1 || url_byte(byte).len() == 3,
        'a' as int <= byte <= 'z' as int ==> url_byte(byte) == seq![byte as char],
        '0' as int <= byte <= '9' as int ==> url_byte(byte) == seq![byte as char],
        byte == '/' as int ==> url_byte(byte) == seq!['/'],
        byte == ' ' as int ==> url_byte(byte) == seq!['%', '2', '0'],
        byte == '%' as int ==> url_byte(byte) == seq!['%', '2', '5'],
        byte >= 0x80 ==> url_byte(byte).len() == 3 && url_byte(byte)[0] == '%',
    decreases bytes.len(),
{
    reveal_strlit("\"#%<>?\\`{}");
    reveal_strlit("0123456789ABCDEF");
    let special = "\"#%<>?\\`{}"@;
    if bytes.len() > 0 {
        a_plain_path_is_its_own_url(bytes.drop_last(), byte);
        assert(url_byte(bytes.last()).len() >= 1);
    }
    let c = byte as char;
    if 'a' as int <= byte <= 'z' as int || '0' as int <= byte <= '9' as int || byte == '/' as int {
        assert(!special.contains(c)) by {
            if special.contains(c) {
                let i = choose|i: int| 0 <= i < special.len() && special[i] == c;
            }
        }
    }
    if byte == '%' as int {
        assert(special[2] == c);
        assert(special.contains(c));
    }
}

} // verus!
