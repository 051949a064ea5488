//! The state the save builder keeps: the files of the opened folder, the
//! events its panels raise for the main loop, and what its viewer tabs
//! hold.
use vstd::prelude::*;
use crate::icon_sys::IconSys;
use crate::text::{str_eq, string_push_str};
use crate::viewer::{ViewerKind, file_extension, path_file_name, viewer_for_extension, viewer_for_file};
use crate::text::ascii_lower;

verus! {

/// A file of the opened folder.
#[derive(Clone, Debug, PartialEq, Eq)]
pub struct VirtualFile {
    pub name: String,
    pub file_path: String,
    pub size: u64,
}

/// What a panel asks the main loop to do.
#[derive(Clone, Debug)]
pub enum AppEvent {
    OpenFolder,
    OpenFile(VirtualFile),
    SetTitle(String),
    AddFiles,
    ExportPSU,
    SaveFile,
}

/// The builder's state: the opened folder, its files, the events not yet
/// handled and the size an archive of the files would take.
pub struct AppState {
    pub opened_folder: Option<String>,
    pub files: Vec<VirtualFile>,
    pub events: Vec<AppEvent>,
    pub calculated_size: u64,
}

impl AppState {
    /// No folder, no files, no events.
    pub fn new() -> (s: Self)
        ensures
            s.opened_folder is None,
            s.files@.len() == 0,
            s.events@.len() == 0,
            s.calculated_size == 0,
    {
        AppState { opened_folder: None, files: Vec::new(), events: Vec::new(), calculated_size: 0 }
    }

    /// Asks for a file to be opened.
    pub fn open_file(&mut self, file: VirtualFile)
        ensures
            final(self).events@ == old(self).events@.push(AppEvent::OpenFile(file)),
            final(self).files@ == old(self).files@,
            final(self).opened_folder == old(self).opened_folder,
            final(self).calculated_size == old(self).calculated_size,
    {
        self.events.push(AppEvent::OpenFile(file));
    }

    /// Asks for the window title to be set.
    pub fn set_title(&mut self, title: String)
        ensures
            final(self).events@ == old(self).events@.push(AppEvent::SetTitle(title)),
            final(self).files@ == old(self).files@,
            final(self).opened_folder == old(self).opened_folder,
            final(self).calculated_size == old(self).calculated_size,
    {
        self.events.push(AppEvent::SetTitle(title));
    }

    /// Asks for files to be added.
    pub fn add_files(&mut self)
        ensures
            final(self).events@ == old(self).events@.push(AppEvent::AddFiles),
            final(self).files@ == old(self).files@,
            final(self).opened_folder == old(self).opened_folder,
            final(self).calculated_size == old(self).calculated_size,
    {
        self.events.push(AppEvent::AddFiles);
    }

    /// Asks for a folder to be opened.
    pub fn open_folder(&mut self)
        ensures
            final(self).events@ == old(self).events@.push(AppEvent::OpenFolder),
            final(self).files@ == old(self).files@,
            final(self).opened_folder == old(self).opened_folder,
            final(self).calculated_size == old(self).calculated_size,
    {
        self.events.push(AppEvent::OpenFolder);
    }

    /// Asks for the folder to be exported as an archive.
    pub fn export_psu(&mut self)
        ensures
            final(self).events@ == old(self).events@.push(AppEvent::ExportPSU),
            final(self).files@ == old(self).files@,
            final(self).opened_folder == old(self).opened_folder,
            final(self).calculated_size == old(self).calculated_size,
    {
        self.events.push(AppEvent::ExportPSU);
    }

    /// Asks for the active tab to be saved.
    pub fn save_file(&mut self)
        ensures
            final(self).events@ == old(self).events@.push(AppEvent::SaveFile),
            final(self).files@ == old(self).files@,
            final(self).opened_folder == old(self).opened_folder,
            final(self).calculated_size == old(self).calculated_size,
    {
        self.events.push(AppEvent::SaveFile);
    }

    /// Takes the pending events, oldest first, leaving none.
    pub fn take_events(&mut self) -> (events: Vec<AppEvent>)
        ensures
            events@ == old(self).events@,
            final(self).events@.len() == 0,
            final(self).files@ == old(self).files@,
            final(self).opened_folder == old(self).opened_folder,
            final(self).calculated_size == old(self).calculated_size,
    {
        let mut events: Vec<AppEvent> = Vec::new();
        std::mem::swap(&mut events, &mut self.events);
        events
    }
}

impl Default for AppState {
    fn default() -> (s: Self)
        ensures
            s.opened_folder is None,
            s.files@.len() == 0,
            s.events@.len() == 0,
            s.calculated_size == 0,
    {
        AppState::new()
    }
}

/// A tab of the builder's editor area.
pub trait Tab {
    fn get_id(&self) -> &str;

    fn get_title(&self) -> String;

    fn get_modified(&self) -> bool;
}

/// A tab's caption: its title, marked with `* ` while it has unsaved
/// changes.
pub fn tab_caption(title: &str, modified: bool) -> (r: String)
    ensures
        r@ == if modified {
            "* "@ + title@
        } else {
            title@
        },
{
    if modified {
        let mut s = "* ".to_owned();
        string_push_str(&mut s, title);
        s
    } else {
        title.to_owned()
    }
}

/// A text editor tab for a title.cfg-like file.
pub struct TitleCfgViewer {
    pub file: String,
    pub file_path: String,
    pub contents: String,
    pub modified: bool,
}

impl TitleCfgViewer {
    /// The tab for `file`, whose text is `contents`.
    pub fn new(file: &VirtualFile, contents: String) -> (v: Self)
        ensures
            v.file@ == file.name@,
            v.file_path@ == file.file_path@,
            v.contents@ == contents@,
            !v.modified,
    {
        TitleCfgViewer {
            file: file.name.clone(),
            file_path: file.file_path.clone(),
            contents,
            modified: false,
        }
    }

    /// Replaces the text, which then has unsaved changes.
    pub fn edit(&mut self, contents: String)
        ensures
            final(self).contents@ == contents@,
            final(self).modified,
            final(self).file@ == old(self).file@,
            final(self).file_path@ == old(self).file_path@,
    {
        self.contents = contents;
        self.modified = true;
    }

    /// Records that the text was written to the file.
    pub fn mark_saved(&mut self)
        ensures
            !final(self).modified,
            final(self).contents@ == old(self).contents@,
            final(self).file@ == old(self).file@,
            final(self).file_path@ == old(self).file_path@,
    {
        self.modified = false;
    }
}

impl Tab for TitleCfgViewer {
    fn get_id(&self) -> (r: &str)
        ensures
            r@ == self.file@,
    {
        self.file.as_str()
    }

    fn get_title(&self) -> (r: String)
        ensures
            r@ == self.file@,
    {
        self.file.clone()
    }

    fn get_modified(&self) -> (r: bool)
        ensures
            r == self.modified,
    {
        self.modified
    }
}

/// A tab that shows an icon.sys file's title and icon file names.
pub struct IconSysViewer {
    pub title: String,
    pub file: String,
    pub icon_file: String,
    pub icon_copy_file: String,
    pub icon_delete_file: String,
}

impl IconSysViewer {
    /// The tab for the icon.sys file called `file_name`, read as `sys`.
    pub fn new(file_name: &str, sys: &IconSys) -> (v: Self)
        ensures
            v.file@ == file_name@,
            v.title@ == sys.title@,
            v.icon_file@ == sys.icon_file@,
            v.icon_copy_file@ == sys.icon_copy_file@,
            v.icon_delete_file@ == sys.icon_delete_file@,
    {
        IconSysViewer {
            title: sys.title.clone(),
            file: file_name.to_owned(),
            icon_file: sys.icon_file.clone(),
            icon_copy_file: sys.icon_copy_file.clone(),
            icon_delete_file: sys.icon_delete_file.clone(),
        }
    }
}

impl Tab for IconSysViewer {
    fn get_id(&self) -> (r: &str)
        ensures
            r@ == self.file@,
    {
        self.file.as_str()
    }

    fn get_title(&self) -> (r: String)
        ensures
            r@ == self.file@,
    {
        self.file.clone()
    }

    fn get_modified(&self) -> (r: bool)
        ensures
            !r,
    {
        false
    }
}


/// What opening a file does in the builder's editor area.
#[derive(Clone, Copy, Debug, PartialEq, Eq, Structural)]
pub enum OpenChoice {
    /// Bring the open tab at this position to the front.
    Focus(usize),
    /// Open a new tab with this viewer.
    Open(ViewerKind),
    /// The file has no viewer.
    Ignore,
}

/// The position of the last title equal to `name`.
pub open spec fn last_title(titles: Seq<String>, name: Seq<char>) -> Option<int>
    decreases titles.len(),
{
    if titles.len() == 0 {
        None
    } else if titles.last()@ == name {
        Some(titles.len() - 1)
    } else {
        last_title(titles.drop_last(), name)
    }
}

/// The viewer for a file, as `viewer_for_file` chooses it.
pub open spec fn viewer_of(path: Seq<char>) -> Option<ViewerKind> {
    match path_file_name(path) {
        Some(name) => match file_extension(name) {
            Some(ext) => viewer_for_extension(ascii_lower(ext)),
            None => None,
        },
        None => None,
    }
}

/// Opening a file: a tab already showing it (the last one with its name as
/// title) comes to the front; otherwise a new tab opens with the file's
/// viewer, if it has one.
pub fn choose_tab(open_titles: &Vec<String>, file_name: &str) -> (r: OpenChoice)
    ensures
        match last_title(open_titles@, file_name@) {
            Some(i) => r == OpenChoice::Focus(i as usize),
            None => match viewer_of(file_name@) {
                Some(k) => r == OpenChoice::Open(k),
                None => r == OpenChoice::Ignore,
            },
        },
{
    let mut i: usize = open_titles.len();
    assert(open_titles@.take(i as int) =~= open_titles@);
    while i > 0
        invariant
            i <= open_titles@.len(),
            last_title(open_titles@, file_name@) == last_title(open_titles@.take(i as int), file_name@),
        decreases i,
    {
        assert(open_titles@.take(i as int).drop_last() =~= open_titles@.take(i - 1));
        if str_eq(open_titles[i - 1].as_str(), file_name) {
            return OpenChoice::Focus(i - 1);
        }
        i = i - 1;
    }
    assert(open_titles@.take(0) =~= Seq::<String>::empty());
    match viewer_for_file(file_name) {
        Some(k) => OpenChoice::Open(k),
        None => OpenChoice::Ignore,
    }
}

} // verus!
