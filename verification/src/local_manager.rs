//! The local model's lifecycle as the UI sees it: its status, the download's
//! progress, which repository files a download takes, and what the files on disk
//! say about the model. Downloading, reading the disk and running the model are
//! the application's.

use vstd::prelude::*;

use crate::ai::{best_device_id, LocalModelStatus};
use crate::ai_config::LocalModelConfig;
use crate::text::chars_of;

verus! {

/// A file of a model repository, as its listing describes it.
#[derive(Debug, Clone)]
pub struct HfFileEntry {
    pub path: String,
    pub size: Option<u64>,
    /// `"file"` or `"directory"`.
    pub entry_type: Option<String>,
    /// The size of a file stored with Git LFS.
    pub lfs_size: Option<u64>,
}

/// Whether the text ends with the suffix.
pub open spec fn ends_with(s: Seq<char>, p: Seq<char>) -> bool {
    p.len() <= s.len() && s.subrange(s.len() - p.len(), s.len() as int) == p
}

/// Whether a download takes the file: not a directory, and a model config,
/// tokenizer or generation config, safetensors weights or their index, or a
/// vocabulary, merges or special-token file.
pub open spec fn wanted(f: HfFileEntry) -> bool {
    let n = f.path@;
    &&& !(f.entry_type matches Some(t) && t@ == "directory"@)
    &&& {
        ||| ends_with(n, "config.json"@)
        ||| ends_with(n, "tokenizer.json"@)
        ||| ends_with(n, "tokenizer_config.json"@)
        ||| ends_with(n, "generation_config.json"@)
        ||| ends_with(n, ".safetensors"@)
        ||| ends_with(n, ".safetensors.index.json"@)
        ||| ends_with(n, "special_tokens_map.json"@)
        ||| ends_with(n, "vocab.json"@)
        ||| ends_with(n, "merges.txt"@)
    }
}

/// The files a download takes, in listing order.
pub open spec fn wanted_files(fs: Seq<HfFileEntry>) -> Seq<HfFileEntry>
    decreases fs.len(),
{
    if fs.len() == 0 {
        Seq::empty()
    } else if wanted(fs.last()) {
        wanted_files(fs.drop_last()).push(fs.last())
    } else {
        wanted_files(fs.drop_last())
    }
}

/// The size a file counts for: its LFS size, else its listed size, else nothing.
pub open spec fn file_size(f: HfFileEntry) -> int {
    match f.lfs_size {
        Some(s) => s as int,
        None => match f.size {
            Some(s) => s as int,
            None => 0,
        },
    }
}

pub open spec fn total_size(fs: Seq<HfFileEntry>) -> int
    decreases fs.len(),
{
    if fs.len() == 0 {
        0
    } else {
        total_size(fs.drop_last()) + file_size(fs.last())
    }
}

proof fn lemma_total_size_prefix(fs: Seq<HfFileEntry>, i: int)
    requires
        0 <= i <= fs.len(),
    ensures
        0 <= total_size(fs.subrange(0, i)) <= total_size(fs),
    decreases fs.len() - i,
{
    if i < fs.len() {
        lemma_total_size_prefix(fs, i + 1);
        assert(fs.subrange(0, i + 1).drop_last() =~= fs.subrange(0, i));
    } else {
        assert(fs.subrange(0, i) =~= fs);
    }
    lemma_total_size_nonneg(fs.subrange(0, i));
}

proof fn lemma_total_size_nonneg(fs: Seq<HfFileEntry>)
    ensures
        total_size(fs) >= 0,
    decreases fs.len(),
{
    if fs.len() > 0 {
        lemma_total_size_nonneg(fs.drop_last());
    }
}

/// Whether the characters end with the suffix.
fn has_suffix(s: &Vec<char>, p: &str) -> (r: bool)
    ensures
        r == ends_with(s@, p@),
{
    let pc = chars_of(p);
    if pc.len() > s.len() {
        return false;
    }
    let n = s.len();
    let off = n - pc.len();
    let mut i: usize = 0;
    while i < pc.len()
        invariant
            pc@ == p@,
            n == s@.len(),
            off == s@.len() - pc@.len(),
            i <= pc@.len(),
            forall|k: int| 0 <= k < i ==> s@[off + k] == pc@[k],
        decreases pc@.len() - i,
    {
        if s[off + i] != pc[i] {
            assert(s@.subrange(off as int, s@.len() as int)[i as int] != pc@[i as int]);
            return false;
        }
        i += 1;
    }
    assert(s@.subrange(off as int, s@.len() as int) =~= pc@);
    true
}

/// Whether a download takes the file.
fn is_wanted(f: &HfFileEntry) -> (r: bool)
    ensures
        r == wanted(*f),
{
    proof {
        reveal_strlit("directory");
    }
    let is_dir = match &f.entry_type {
        Some(t) => {
            let tc = chars_of(t.as_str());
            let d = tc.len() == 9 && has_suffix(&tc, "directory");
            assert(tc@.subrange(0, tc@.len() as int) =~= tc@);
            assert(d == (t@ == "directory"@));
            d
        },
        None => false,
    };
    if is_dir {
        return false;
    }
    let n = chars_of(f.path.as_str());
    has_suffix(&n, "config.json") || has_suffix(&n, "tokenizer.json") || has_suffix(
        &n,
        "tokenizer_config.json",
    ) || has_suffix(&n, "generation_config.json") || has_suffix(&n, ".safetensors")
        || has_suffix(&n, ".safetensors.index.json") || has_suffix(&n, "special_tokens_map.json")
        || has_suffix(&n, "vocab.json") || has_suffix(&n, "merges.txt")
}

/// Determine which files of the repository to download, in listing order.
pub fn select_download_files(files: &[HfFileEntry]) -> (r: Vec<&HfFileEntry>)
    ensures
        r@.map_values(|f: &HfFileEntry| *f) == wanted_files(files@),
{
    let mut out: Vec<&HfFileEntry> = Vec::new();
    let mut i: usize = 0;
    while i < files.len()
        invariant
            i <= files@.len(),
            out@.map_values(|f: &HfFileEntry| *f) == wanted_files(files@.subrange(0, i as int)),
        decreases files@.len() - i,
    {
        assert(files@.subrange(0, i + 1).drop_last() =~= files@.subrange(0, i as int));
        let f = &files[i];
        let ghost before = out@;
        if is_wanted(f) {
            out.push(f);
            assert(out@.map_values(|f: &HfFileEntry| *f) =~= before.map_values(
                |f: &HfFileEntry| *f,
            ).push(*f));
        }
        i += 1;
    }
    assert(files@.subrange(0, i as int) =~= files@);
    out
}

/// The number of bytes a download of the files takes (LFS sizes first).
pub fn download_total(files: &[&HfFileEntry]) -> (r: u64)
    requires
        total_size(files@.map_values(|f: &HfFileEntry| *f)) <= u64::MAX,
    ensures
        r == total_size(files@.map_values(|f: &HfFileEntry| *f)),
{
    let ghost fs = files@.map_values(|f: &HfFileEntry| *f);
    let mut total: u64 = 0;
    let mut i: usize = 0;
    while i < files.len()
        invariant
            i <= files@.len(),
            fs == files@.map_values(|f: &HfFileEntry| *f),
            total_size(fs) <= u64::MAX,
            total == total_size(fs.subrange(0, i as int)),
        decreases files@.len() - i,
    {
        assert(fs.subrange(0, i + 1).drop_last() =~= fs.subrange(0, i as int));
        assert(fs[i as int] == *files@[i as int]);
        proof {
            lemma_total_size_prefix(fs, i + 1);
        }
        let f = files[i];
        let size = match f.lfs_size {
            Some(s) => s,
            None => match f.size {
                Some(s) => s,
                None => 0,
            },
        };
        total = total + size;
        i += 1;
    }
    assert(fs.subrange(0, i as int) =~= fs);
    total
}

/// Whether the UI is repainted after a chunk of a download: every 256 KiB or so,
/// and when the download completes.
pub fn should_repaint(current: u64, chunk_len: u64, total: u64) -> (r: bool)
    ensures
        r == (current % 262144 < chunk_len || current == total),
{
    current % (256 * 1024) < chunk_len || current == total
}

/// The status the files on disk give the model: the metadata written after a
/// download, else any files at all (downloaded at an unknown date), else none.
pub fn detected_status(meta: Option<(String, u64)>, has_files: bool, dir_size: u64) -> (r:
    LocalModelStatus)
    ensures
        match meta {
            Some((date, size)) => r == (LocalModelStatus::Downloaded { date, size_bytes: size }),
            None => if has_files {
                r matches LocalModelStatus::Downloaded { date, size_bytes } && date@ == "unknown"@
                    && size_bytes == dir_size
            } else {
                r == LocalModelStatus::NotDownloaded
            },
        },
{
    match meta {
        Some((date, size)) => LocalModelStatus::Downloaded { date, size_bytes: size },
        None => if has_files {
            LocalModelStatus::Downloaded { date: "unknown".to_owned(), size_bytes: dir_size }
        } else {
            LocalModelStatus::NotDownloaded
        },
    }
}

/// The device a model runs on: the configured one, or the best available for
/// `"auto"`.
pub fn inference_device(configured: &str, has_metal: bool, has_cuda: bool) -> (r: String)
    ensures
        configured@ == "auto"@ ==> r@ == (if has_metal {
            "metal"@
        } else if has_cuda {
            "cuda"@
        } else {
            "cpu"@
        }),
        configured@ != "auto"@ ==> r@ == configured@,
{
    let c = chars_of(configured);
    proof {
        reveal_strlit("auto");
    }
    if c.len() == 4 && c[0] == 'a' && c[1] == 'u' && c[2] == 't' && c[3] == 'o' {
        assert(configured@ =~= "auto"@);
        best_device_id(has_metal, has_cuda)
    } else {
        assert(configured@ != "auto"@) by {
            if configured@ == "auto"@ {
                assert(c@[0] == 'a' && c@[1] == 'u' && c@[2] == 't' && c@[3] == 'o');
            }
        }
        configured.to_owned()
    }
}

/// The most tokens asked of the local model at once: generating on a CPU is slow.
pub fn local_max_tokens(requested: u32) -> (r: u32)
    ensures
        r == (if requested < 128 {
            requested
        } else {
            128
        }),
{
    if requested < 128 {
        requested
    } else {
        128
    }
}

/// The local model's lifecycle: its status and the progress of a download.
pub struct LocalModelManager {
    pub status: LocalModelStatus,
    pub config: LocalModelConfig,
    pub downloaded_bytes: u64,
    pub total_bytes: u64,
    pub download_active: bool,
}

impl LocalModelManager {
    /// A manager for the configuration; until the disk has been looked at, the
    /// model counts as not downloaded.
    pub fn new(config: LocalModelConfig) -> (r: Self)
        ensures
            r.status == LocalModelStatus::NotDownloaded,
            r.config == config,
            r.downloaded_bytes == 0,
            r.total_bytes == 0,
            !r.download_active,
    {
        LocalModelManager {
            status: LocalModelStatus::NotDownloaded,
            config,
            downloaded_bytes: 0,
            total_bytes: 0,
            download_active: false,
        }
    }

    /// Current status: the download's live progress while one runs, else the
    /// stored status.
    pub fn status(&self) -> (r: LocalModelStatus)
        ensures
            self.download_active ==> r == (LocalModelStatus::Downloading {
                downloaded_bytes: self.downloaded_bytes,
                total_bytes: self.total_bytes,
            }),
            !self.download_active ==> r == self.status,
    {
        if self.download_active {
            return LocalModelStatus::Downloading {
                downloaded_bytes: self.downloaded_bytes,
                total_bytes: self.total_bytes,
            };
        }
        match &self.status {
            LocalModelStatus::NotDownloaded => LocalModelStatus::NotDownloaded,
            LocalModelStatus::Downloading { downloaded_bytes, total_bytes } =>
                LocalModelStatus::Downloading {
                    downloaded_bytes: *downloaded_bytes,
                    total_bytes: *total_bytes,
                },
            LocalModelStatus::Downloaded { date, size_bytes } => LocalModelStatus::Downloaded {
                date: date.clone(),
                size_bytes: *size_bytes,
            },
            LocalModelStatus::Starting => LocalModelStatus::Starting,
            LocalModelStatus::Running => LocalModelStatus::Running,
            LocalModelStatus::Error(e) => LocalModelStatus::Error(e.clone()),
        }
    }

    /// Is the inference engine currently running?
    pub fn is_running(&self) -> (r: bool)
        ensures
            r == (!self.download_active && self.status is Running),
    {
        !self.download_active && matches!(self.status, LocalModelStatus::Running)
    }

    /// Is a download in progress?
    pub fn is_downloading(&self) -> (r: bool)
        ensures
            r == self.download_active,
    {
        self.download_active
    }

    /// Download progress as (downloaded, total) bytes; none when not downloading.
    pub fn download_progress(&self) -> (r: Option<(u64, u64)>)
        ensures
            r == (if self.download_active {
                Some((self.downloaded_bytes, self.total_bytes))
            } else {
                None
            }),
    {
        if self.download_active {
            Some((self.downloaded_bytes, self.total_bytes))
        } else {
            None
        }
    }

    /// Record a new status (what the disk, a download or the model's loading
    /// showed).
    pub fn set_status(&mut self, status: LocalModelStatus)
        ensures
            final(self).status == status,
            final(self).config == old(self).config,
            final(self).downloaded_bytes == old(self).downloaded_bytes,
            final(self).total_bytes == old(self).total_bytes,
            final(self).download_active == old(self).download_active,
    {
        self.status = status;
    }

    /// Update the config (e.g. when the model changes in settings); the disk is to
    /// be looked at again.
    pub fn update_config(&mut self, config: LocalModelConfig)
        ensures
            final(self).config == config,
            final(self).status == old(self).status,
            final(self).downloaded_bytes == old(self).downloaded_bytes,
            final(self).total_bytes == old(self).total_bytes,
            final(self).download_active == old(self).download_active,
    {
        self.config = config;
    }

    /// A download starts, unless one is already running (false then): the
    /// progress counters restart at zero.
    pub fn begin_download(&mut self) -> (r: bool)
        ensures
            r == !old(self).download_active,
            final(self).download_active,
            r ==> final(self).downloaded_bytes == 0 && final(self).total_bytes == 0,
            !r ==> final(self).downloaded_bytes == old(self).downloaded_bytes
                && final(self).total_bytes == old(self).total_bytes,
            final(self).status == old(self).status,
            final(self).config == old(self).config,
    {
        if self.download_active {
            return false;
        }
        self.download_active = true;
        self.downloaded_bytes = 0;
        self.total_bytes = 0;
        true
    }

    /// A download ended: with the metadata written, the model is downloaded at
    /// that date with that size; with an error, the status holds its message.
    pub fn finish_download(&mut self, result: Result<(String, u64), String>)
        ensures
            !final(self).download_active,
            match result {
                Ok((date, size)) => final(self).status == (LocalModelStatus::Downloaded {
                    date,
                    size_bytes: size,
                }),
                Err(e) => final(self).status == LocalModelStatus::Error(e),
            },
            final(self).config == old(self).config,
    {
        self.download_active = false;
        self.status = match result {
            Ok((date, size)) => LocalModelStatus::Downloaded { date, size_bytes: size },
            Err(e) => LocalModelStatus::Error(e),
        };
    }

    /// Delete the model: it is no longer downloaded.
    pub fn delete_model(&mut self)
        ensures
            final(self).status == LocalModelStatus::NotDownloaded,
            final(self).config == old(self).config,
            final(self).download_active == old(self).download_active,
    {
        self.status = LocalModelStatus::NotDownloaded;
    }
}

} // verus!
