use vstd::prelude::*;

verus! {

/// The abstract view of a [`Config`]: every text field as a character sequence.
pub struct ConfigView {
    pub source_folder: Option<Seq<char>>,
    pub source_folders: Seq<Seq<char>>,
    pub destination_path: Seq<char>,
    pub base_name: Seq<char>,
    pub max_backups: nat,
    pub compression_level: Option<u8>,
}

/// Backup settings, as read from the configuration file.
///
/// `source_folder` is the older single-folder setting; `source_folders`
/// takes precedence over it when both are present.
#[derive(Clone, Debug)]
pub struct Config {
    pub source_folder: Option<String>,
    pub source_folders: Vec<String>,
    pub destination_path: String,
    pub base_name: String,
    pub max_backups: usize,
    pub compression_level: Option<u8>,
}

pub open spec fn opt_string_view(o: Option<String>) -> Option<Seq<char>> {
    match o {
        Some(s) => Some(s@),
        None => None,
    }
}

impl View for Config {
    type V = ConfigView;

    open spec fn view(&self) -> ConfigView {
        ConfigView {
            source_folder: opt_string_view(self.source_folder),
            source_folders: self.source_folders.deep_view(),
            destination_path: self.destination_path@,
            base_name: self.base_name@,
            max_backups: self.max_backups as nat,
            compression_level: self.compression_level,
        }
    }
}

impl ConfigView {
    /// The folders to back up: the list when it is non-empty, otherwise the
    /// single folder when it is set, otherwise none.
    pub open spec fn sources(self) -> Seq<Seq<char>> {
        if self.source_folders.len() > 0 {
            self.source_folders
        } else if self.source_folder is Some {
            seq![self.source_folder->0]
        } else {
            seq![]
        }
    }

    /// The compression level to use: the configured one, or 5.
    pub open spec fn effective_compression_level(self) -> u8 {
        match self.compression_level {
            Some(level) => level,
            None => 5u8,
        }
    }

    /// Both the single folder and the folder list are set.
    pub open spec fn has_conflicting_sources(self) -> bool {
        self.source_folder is Some && self.source_folders.len() > 0
    }
}

/// Which folders are backed up: a non-empty folder list is used as it is,
/// whatever the single folder setting holds; only with an empty list does
/// the single folder count, and with neither there is nothing to back up.
pub proof fn lemma_source_precedence(c: ConfigView)
    ensures
        c.source_folders.len() > 0 ==> c.sources() == c.source_folders,
        c.source_folders.len() == 0 && c.source_folder is Some ==> c.sources().len() == 1
            && c.sources()[0] == c.source_folder->0,
        c.source_folders.len() == 0 && c.source_folder is None ==> c.sources().len() == 0,
{
}

/// A copy of the strings of `v`, element by element.
fn copy_strings(v: &Vec<String>) -> (r: Vec<String>)
    ensures
        r.deep_view() == v.deep_view(),
{
    let mut r: Vec<String> = Vec::new();
    let mut i: usize = 0;
    while i < v.len()
        invariant
            i <= v.len(),
            r@.len() == i,
            forall|k: int| 0 <= k < i ==> #[trigger] r@[k]@ == v@[k]@,
        decreases v.len() - i,
    {
        r.push(v[i].clone());
        i = i + 1;
    }
    assert(r.deep_view() =~= v.deep_view());
    r
}

impl Config {
    /// All source folders, combining the single and the multiple settings;
    /// `source_folders` takes precedence when both are set.
    pub fn get_source_folders(&self) -> (r: Vec<String>)
        ensures
            r.deep_view() == self@.sources(),
            self.source_folders@.len() > 0 ==> r.deep_view() == self.source_folders.deep_view(),
            self.source_folders@.len() == 0 && self.source_folder is Some ==> r@.len() == 1
                && r@[0]@ == self.source_folder->0@,
            self.source_folders@.len() == 0 && self.source_folder is None ==> r@.len() == 0,
    {
        proof {
            lemma_source_precedence(self@);
        }
        if self.source_folders.len() > 0 {
            copy_strings(&self.source_folders)
        } else {
            match &self.source_folder {
                Some(folder) => {
                    let mut r: Vec<String> = Vec::new();
                    r.push(folder.clone());
                    assert(r.deep_view() =~= self@.sources());
                    r
                },
                None => {
                    let r: Vec<String> = Vec::new();
                    assert(r.deep_view() =~= self@.sources());
                    r
                },
            }
        }
    }
}

impl Config {
    /// The compression level for new archives: the configured one, or 5.
    pub fn effective_compression_level(&self) -> (r: u8)
        ensures
            r == self@.effective_compression_level(),
            self.compression_level is None ==> r == 5,
            self.compression_level is Some ==> r == self.compression_level->0,
    {
        match self.compression_level {
            Some(level) => level,
            None => 5,
        }
    }

    /// Whether both `source_folder` and `source_folders` are configured, in
    /// which case the single folder is ignored and a warning is due.
    pub fn has_conflicting_sources(&self) -> (r: bool)
        ensures
            r == self@.has_conflicting_sources(),
            r <==> (self.source_folder is Some && self.source_folders@.len() > 0),
    {
        self.source_folder.is_some() && self.source_folders.len() > 0
    }
}

/// The settings written to a fresh configuration file.
pub open spec fn default_config_view() -> ConfigView {
    ConfigView {
        source_folder: None,
        source_folders: seq!["C:\\Users\\YourUsername\\Documents"@],
        destination_path: "C:\\Users\\YourUsername\\OneDrive"@,
        base_name: "Backup"@,
        max_backups: 30,
        compression_level: Some(5u8),
    }
}

impl Default for Config {
    fn default() -> (r: Config)
        ensures
            r@ == default_config_view(),
            r.source_folder is None,
            r.source_folders@.len() == 1,
            r.source_folders@[0]@ == "C:\\Users\\YourUsername\\Documents"@,
            r.destination_path@ == "C:\\Users\\YourUsername\\OneDrive"@,
            r.base_name@ == "Backup"@,
            r.max_backups == 30,
            r.compression_level == Some(5u8),
    {
        let mut folders: Vec<String> = Vec::new();
        folders.push(String::from_str("C:\\Users\\YourUsername\\Documents"));
        let r = Config {
            source_folder: None,
            source_folders: folders,
            destination_path: String::from_str("C:\\Users\\YourUsername\\OneDrive"),
            base_name: String::from_str("Backup"),
            max_backups: 30,
            compression_level: Some(5),
        };
        assert(r.source_folders.deep_view() =~= default_config_view().source_folders);
        r
    }
}

} // verus!
