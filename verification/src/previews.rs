//! Sending image previews, one attempt after the other.

use vstd::prelude::*;
use vstd::string::*;
use crate::models::{FileHit, Preferences};
use crate::models;
use crate::telegram;
use crate::text;

verus! {

/// What is sent next.
#[derive(Debug, PartialEq, Eq)]
pub enum PreviewAction {
    /// A text message.
    SendText(String),
    /// One rich message with all images.
    SendRich(String),
    /// A photo, fetched from an address, with a caption.
    SendPhoto {
        /// The address.
        url: String,
        /// The caption.
        caption: String,
    },
    /// Nothing: all is sent.
    Finish,
    /// Nothing: the last attempt failed for good.
    GiveUp,
}

/// The value of `PreviewAction`.
pub enum PreviewView {
    SendText(Seq<char>),
    SendRich(Seq<char>),
    SendPhoto { url: Seq<char>, caption: Seq<char> },
    Finish,
    GiveUp,
}

impl View for PreviewAction {
    type V = PreviewView;

    open spec fn view(&self) -> PreviewView {
        match self {
            PreviewAction::SendText(s) => PreviewView::SendText(s@),
            PreviewAction::SendRich(s) => PreviewView::SendRich(s@),
            PreviewAction::SendPhoto { url, caption } => PreviewView::SendPhoto {
                url: url@,
                caption: caption@,
            },
            PreviewAction::Finish => PreviewView::Finish,
            PreviewAction::GiveUp => PreviewView::GiveUp,
        }
    }
}

/// How far the sending has come.
#[derive(Clone, Copy, Debug, PartialEq, Eq, Structural)]
pub enum Progress {
    /// A list of links is being sent, as no file has a preview.
    Links,
    /// The rich message is being sent.
    Rich,
    /// A photo of a file is being sent from one of its addresses.
    Photo {
        /// Index of the file.
        file: usize,
        /// Index of the address.
        address: usize,
    },
    /// The link to a file is being sent in place of its photo.
    Link {
        /// Index of the file.
        file: usize,
    },
    /// Nothing more is sent.
    Over,
}

/// The attempt that starts with a file's address, and what is sent in it. A file whose photo has
/// no address left, or no caption, is sent as a link; one without a link is passed over.
pub open spec fn attempt(
    files: Seq<FileHit>,
    p: models::PreferencesModel,
    file: nat,
    address: nat,
) -> (Progress, PreviewView)
    decreases files.len() - file,
{
    if file >= files.len() {
        (Progress::Over, PreviewView::Finish)
    } else {
        let f = files[file as int];
        let urls = telegram::preview_addresses(f);
        let caption = telegram::photo_caption(f, p);
        if caption is Some && address < urls.len() {
            (
                Progress::Photo { file: file as usize, address: address as usize },
                PreviewView::SendPhoto { url: urls[address as int], caption: caption->0 },
            )
        } else {
            match telegram::link_to_file(f) {
                Some(link) => (Progress::Link { file: file as usize }, PreviewView::SendText(link)),
                None => attempt(files, p, file + 1, 0),
            }
        }
    }
}

/// The first attempt, and what is sent in it.
pub open spec fn first_attempt(files: Seq<FileHit>, max_images: nat, p: models::PreferencesModel) -> (
    Progress,
    PreviewView,
) {
    let images = telegram::with_preview(files, max_images);
    let html = telegram::rich_from(seq![], images, p, 0);
    if images.len() == 0 {
        (Progress::Links, PreviewView::SendText(telegram::plain_files(files)))
    } else if p.rich_image_previews && html.len() > 0 {
        (Progress::Rich, PreviewView::SendRich(html))
    } else {
        attempt(images, p, 0, 0)
    }
}

/// The attempt after one that went well or failed, and what is sent in it. A failed rich message
/// is followed by photos, a failed photo by the next address or the link; a link that cannot be
/// sent ends everything.
pub open spec fn next_attempt(
    images: Seq<FileHit>,
    p: models::PreferencesModel,
    progress: Progress,
    sent: bool,
) -> (Progress, PreviewView) {
    match progress {
        Progress::Links => (
            Progress::Over,
            if sent {
                PreviewView::Finish
            } else {
                PreviewView::GiveUp
            },
        ),
        Progress::Rich => if sent {
            (Progress::Over, PreviewView::Finish)
        } else {
            attempt(images, p, 0, 0)
        },
        Progress::Photo { file, address } => if sent {
            attempt(images, p, (file + 1) as nat, 0)
        } else {
            attempt(images, p, file as nat, (address + 1) as nat)
        },
        Progress::Link { file } => if sent {
            attempt(images, p, (file + 1) as nat, 0)
        } else {
            (Progress::Over, PreviewView::GiveUp)
        },
        Progress::Over => (Progress::Over, PreviewView::Finish),
    }
}

/// The sending of image previews.
#[derive(Debug)]
pub struct PreviewRun {
    /// The files that have a preview.
    pub images: Vec<FileHit>,
    /// The preferences of the user.
    pub preferences: Preferences,
    /// How far the sending has come.
    pub progress: Progress,
}

impl PreviewRun {
    /// The current attempt is about a file and an address that are there.
    pub open spec fn well_formed(self) -> bool {
        match self.progress {
            Progress::Photo { file, address } => file < self.images@.len() && address
                < telegram::preview_addresses(self.images@[file as int]).len(),
            Progress::Link { file } => file < self.images@.len(),
            _ => true,
        }
    }

    /// Starts the sending of previews of the first files that have one.
    pub fn start(files: &Vec<FileHit>, max_images: usize, preferences: &Preferences) -> (r: (
        Self,
        PreviewAction,
    ))
        ensures
            r.0.well_formed(),
            r.0.images@ == telegram::with_preview(files@, max_images as nat),
            r.0.preferences@ == preferences@,
            (r.0.progress, r.1@) == first_attempt(files@, max_images as nat, preferences@),
    {
        let mut run = PreviewRun {
            images: telegram::preview_files(files, max_images),
            preferences: preferences.clone(),
            progress: Progress::Over,
        };
        if run.images.len() == 0 {
            run.progress = Progress::Links;
            return (run, PreviewAction::SendText(telegram::plain_files_text(files)));
        }
        if preferences.rich_image_previews {
            let html = telegram::rich_image_preview_html(&run.images, preferences);
            if html.as_str().unicode_len() > 0 {
                run.progress = Progress::Rich;
                return (run, PreviewAction::SendRich(html));
            }
        }
        let action = run.go_on(0, 0);
        (run, action)
    }

    /// Goes on with an address of a file.
    fn go_on(&mut self, file: usize, address: usize) -> (r: PreviewAction)
        ensures
            final(self).well_formed(),
            final(self).images == old(self).images,
            final(self).preferences == old(self).preferences,
            (final(self).progress, r@) == attempt(
                old(self).images@,
                old(self).preferences@,
                file as nat,
                address as nat,
            ),
    {
        let mut i: usize = file;
        let mut a: usize = address;
        while i < self.images.len()
            invariant
                self.images == old(self).images,
                self.preferences == old(self).preferences,
                attempt(self.images@, self.preferences@, file as nat, address as nat) == attempt(
                    self.images@,
                    self.preferences@,
                    i as nat,
                    a as nat,
                ),
            decreases self.images.len() - i,
        {
            let urls = telegram::telegram_preview_urls(&self.images[i]);
            assert(text::texts(urls@).len() == urls@.len());
            if a < urls.len() {
                if let Some(caption) = telegram::telegram_photo_caption(
                    &self.images[i],
                    &self.preferences,
                ) {
                    assert(text::texts(urls@)[a as int] == urls@[a as int]@);
                    self.progress = Progress::Photo { file: i, address: a };
                    return PreviewAction::SendPhoto { url: urls[a].clone(), caption };
                }
            }
            if let Some(link) = telegram::file_link(&self.images[i]) {
                self.progress = Progress::Link { file: i };
                return PreviewAction::SendText(link);
            }
            i += 1;
            a = 0;
        }
        self.progress = Progress::Over;
        PreviewAction::Finish
    }

    /// Goes on after an attempt that went well or failed.
    pub fn advance(&mut self, sent: bool) -> (r: PreviewAction)
        requires
            old(self).well_formed(),
        ensures
            final(self).well_formed(),
            final(self).images == old(self).images,
            final(self).preferences == old(self).preferences,
            (final(self).progress, r@) == next_attempt(
                old(self).images@,
                old(self).preferences@,
                old(self).progress,
                sent,
            ),
    {
        assert(self.images.len() == self.images@.len());
        match self.progress {
            Progress::Links => {
                self.progress = Progress::Over;
                if sent {
                    PreviewAction::Finish
                } else {
                    PreviewAction::GiveUp
                }
            },
            Progress::Rich => if sent {
                self.progress = Progress::Over;
                PreviewAction::Finish
            } else {
                self.go_on(0, 0)
            },
            Progress::Photo { file, address } => if sent {
                self.go_on(file + 1, 0)
            } else {
                proof {
                    lemma_two_addresses(self.images@[file as int]);
                }
                self.go_on(file, address + 1)
            },
            Progress::Link { file } => if sent {
                self.go_on(file + 1, 0)
            } else {
                self.progress = Progress::Over;
                PreviewAction::GiveUp
            },
            Progress::Over => PreviewAction::Finish,
        }
    }
}

/// A file has two addresses of previews at most.
proof fn lemma_two_addresses(file: FileHit)
    ensures
        telegram::preview_addresses(file).len() <= 2,
{
}

/// True where an attempt comes after another: a later file, or the same file with a later address
/// or its link.
pub open spec fn later(a: Progress, b: Progress) -> bool {
    match (a, b) {
        (Progress::Over, _) => false,
        (_, Progress::Over) => true,
        (Progress::Rich, Progress::Photo { .. }) => true,
        (Progress::Rich, Progress::Link { .. }) => true,
        (
            Progress::Photo { file: i, address: x },
            Progress::Photo { file: k, address: y },
        ) => i < k || (i == k && x < y),
        (Progress::Photo { file: i, .. }, Progress::Link { file: k }) => i <= k,
        (Progress::Link { file: i }, Progress::Photo { file: k, .. }) => i < k,
        (Progress::Link { file: i }, Progress::Link { file: k }) => i < k,
        _ => false,
    }
}

/// An attempt is about the file it starts with, or about a later one.
proof fn lemma_attempt_moves(
    images: Seq<FileHit>,
    p: models::PreferencesModel,
    file: nat,
    address: nat,
)
    requires
        images.len() <= usize::MAX,
    ensures
        match attempt(images, p, file, address).0 {
            Progress::Photo { file: k, address: y } => k > file || (k == file && y == address),
            Progress::Link { file: k } => k >= file,
            Progress::Over => true,
            _ => false,
        },
    decreases images.len() - file,
{
    if file < images.len() {
        lemma_two_addresses(images[file as int]);
        lemma_attempt_moves(images, p, file + 1, 0);
    }
}

/// Every attempt comes after the one before it, so that no photo and no link is sent twice and
/// the sending ends.
pub proof fn law_previews_move_on(run: PreviewRun, sent: bool)
    requires
        run.well_formed(),
        run.progress != Progress::Over,
    ensures
        later(
            run.progress,
            next_attempt(run.images@, run.preferences@, run.progress, sent).0,
        ),
{
    let images = run.images@;
    let p = run.preferences@;
    assert(run.images.len() == images.len());
    match run.progress {
        Progress::Rich => {
            lemma_attempt_moves(images, p, 0, 0);
        },
        Progress::Photo { file, address } => {
            lemma_two_addresses(images[file as int]);
            lemma_attempt_moves(images, p, (file + 1) as nat, 0);
            lemma_attempt_moves(images, p, file as nat, (address + 1) as nat);
        },
        Progress::Link { file } => {
            lemma_attempt_moves(images, p, (file + 1) as nat, 0);
        },
        _ => {},
    }
}

} // verus!
