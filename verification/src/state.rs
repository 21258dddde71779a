//! State of the drop window: the queued files, the current recipe and
//! settings, whether an encode runs, and the commands other windows send.
use vstd::prelude::*;

use crate::codec::{AudioCodec, EncodeRecipe, VideoCodec};
use crate::encode::EncodeJob;
use crate::input::{filter_mp4_paths, spec_is_mp4};
use crate::output::{default_output_path, spec_default_output_path};
use crate::settings::AppSettings;

verus! {

/// A command from the menu or options window to the drop window.
#[derive(Debug)]
pub enum AppCommand {
    OpenOptions,
    TriggerEncode,
    Clear,
    Exit,
    UpdateRecipe(EncodeRecipe),
    UpdateSettings(AppSettings),
}

/// What the drop window does after a command has been applied.
#[derive(Debug, Clone, Copy, PartialEq, Eq, Structural)]
pub enum CommandEffect {
    /// Nothing more; go on with the next command.
    Continue,
    /// Open the options window and stop reading commands.
    OpenOptions,
    /// Start encoding the queue and stop reading commands.
    TriggerEncode,
    /// Quit the application and stop reading commands.
    Exit,
}

/// `items` appended to `list` one by one, each only when not yet present.
pub open spec fn add_unique(list: Seq<Seq<char>>, items: Seq<Seq<char>>) -> Seq<Seq<char>>
    decreases items.len(),
{
    if items.len() == 0 {
        list
    } else {
        let l = add_unique(list, items.drop_last());
        if l.contains(items.last()) {
            l
        } else {
            l.push(items.last())
        }
    }
}

/// No element occurs twice.
pub open spec fn no_duplicates(list: Seq<Seq<char>>) -> bool {
    forall|i: int, j: int| 0 <= i < j < list.len() ==> list[i] != list[j]
}

/// State of the drop window.
#[derive(Debug)]
pub struct DropState {
    pub recipe: EncodeRecipe,
    pub dropped_paths: Vec<String>,
    pub encoding: bool,
    pub settings: AppSettings,
}

/// Whether `list` holds a string equal to `s`.
fn contains_str(list: &Vec<String>, s: &String) -> (r: bool)
    ensures
        r == list.deep_view().contains(s@),
{
    let mut i: usize = 0;
    while i < list.len()
        invariant
            i <= list@.len(),
            forall|j: int| 0 <= j < i ==> list@[j]@ != s@,
        decreases list@.len() - i,
    {
        if list[i] == *s {
            assert(list.deep_view()[i as int] == s@);
            return true;
        }
        i = i + 1;
    }
    proof {
        if list.deep_view().contains(s@) {
            let j = choose|j: int| 0 <= j < list.deep_view().len() && list.deep_view()[j] == s@;
            assert(list@[j]@ == s@);
        }
    }
    false
}

/// The recipe an encode of the queue uses: the current codecs with the
/// bitrates of the settings.
pub open spec fn queue_recipe(s: DropState) -> EncodeRecipe {
    EncodeRecipe {
        video_bitrate_kbps: s.settings.video_bitrate_kbps,
        audio_bitrate_kbps: s.settings.audio_bitrate_kbps,
        ..s.recipe
    }
}

impl DropState {
    /// Default recipe and settings, empty queue, not encoding.
    pub fn new() -> (r: Self)
        ensures
            r.dropped_paths@.len() == 0,
            !r.encoding,
            r.recipe.audio == AudioCodec::Opus,
            r.recipe.video == VideoCodec::Av1,
            r.recipe.video_bitrate_kbps == 0,
            r.recipe.audio_bitrate_kbps == 0,
            r.settings.output_dir@ == "."@,
            !r.settings.overwrite,
            r.settings.auto_encode_on_drop,
            r.settings.video_bitrate_kbps == 0,
            r.settings.audio_bitrate_kbps == 0,
    {
        DropState {
            recipe: EncodeRecipe::default(),
            dropped_paths: Vec::new(),
            encoding: false,
            settings: AppSettings::default(),
        }
    }

    /// Queues the MP4 files among `paths`, in order, skipping files already
    /// queued.
    pub fn add_paths(&mut self, paths: &[String])
        ensures
            final(self).dropped_paths.deep_view() == add_unique(
                old(self).dropped_paths.deep_view(),
                paths.deep_view().filter(|p: Seq<char>| spec_is_mp4(p)),
            ),
            final(self).recipe == old(self).recipe,
            final(self).encoding == old(self).encoding,
            final(self).settings == old(self).settings,
    {
        let mp4 = filter_mp4_paths(paths);
        let ghost start = self.dropped_paths.deep_view();
        let ghost items = mp4.deep_view();
        let mut i: usize = 0;
        while i < mp4.len()
            invariant
                i <= mp4@.len(),
                items == mp4.deep_view(),
                self.dropped_paths.deep_view() == add_unique(start, items.take(i as int)),
                self.recipe == old(self).recipe,
                self.encoding == old(self).encoding,
                self.settings == old(self).settings,
            decreases mp4@.len() - i,
        {
            assert(items.take(i + 1).drop_last() =~= items.take(i as int));
            assert(items.take(i + 1).last() == mp4@[i as int]@);
            if !contains_str(&self.dropped_paths, &mp4[i]) {
                let ghost before = self.dropped_paths.deep_view();
                let p = mp4[i].clone();
                self.dropped_paths.push(p);
                assert(self.dropped_paths.deep_view() =~= before.push(mp4@[i as int]@));
            }
            i = i + 1;
        }
        assert(items.take(i as int) =~= items);
    }

    /// A drop of `paths` onto the window: ignored while encoding; otherwise
    /// the MP4 files are queued, and the result says whether an encode
    /// starts now (automatic encoding is on and the queue is not empty).
    pub fn on_drop(&mut self, paths: &[String]) -> (start_encode: bool)
        ensures
            old(self).encoding ==> final(self).dropped_paths.deep_view() == old(self).dropped_paths.deep_view()
                && !start_encode,
            !old(self).encoding ==> final(self).dropped_paths.deep_view() == add_unique(
                old(self).dropped_paths.deep_view(),
                paths.deep_view().filter(|p: Seq<char>| spec_is_mp4(p)),
            ) && start_encode == (old(self).settings.auto_encode_on_drop
                && final(self).dropped_paths@.len() > 0),
            final(self).encoding == old(self).encoding,
    {
        if self.encoding {
            return false;
        }
        self.add_paths(paths);
        self.settings.auto_encode_on_drop && self.dropped_paths.len() > 0
    }

    /// Applies one command: recipe and settings updates and clearing the
    /// queue happen here; the other commands are effects for the window.
    pub fn apply_command(&mut self, cmd: AppCommand) -> (effect: CommandEffect)
        ensures
            match cmd {
                AppCommand::UpdateRecipe(r) => final(self).recipe == r && effect == CommandEffect::Continue
                    && final(self).dropped_paths@ == old(self).dropped_paths@,
                AppCommand::UpdateSettings(s) => final(self).settings == s && effect == CommandEffect::Continue
                    && final(self).dropped_paths@ == old(self).dropped_paths@,
                AppCommand::Clear => final(self).dropped_paths@.len() == 0 && effect == CommandEffect::Continue,
                AppCommand::OpenOptions => effect == CommandEffect::OpenOptions && final(self).dropped_paths@
                    == old(self).dropped_paths@,
                AppCommand::TriggerEncode => effect == CommandEffect::TriggerEncode && final(self).dropped_paths@
                    == old(self).dropped_paths@,
                AppCommand::Exit => effect == CommandEffect::Exit && final(self).dropped_paths@
                    == old(self).dropped_paths@,
            },
            final(self).encoding == old(self).encoding,
            !(cmd is UpdateRecipe) ==> final(self).recipe == old(self).recipe,
            !(cmd is UpdateSettings) ==> final(self).settings == old(self).settings,
    {
        match cmd {
            AppCommand::UpdateRecipe(r) => {
                self.recipe = r;
                CommandEffect::Continue
            },
            AppCommand::UpdateSettings(s) => {
                self.settings = s;
                CommandEffect::Continue
            },
            AppCommand::Clear => {
                self.dropped_paths.clear();
                CommandEffect::Continue
            },
            AppCommand::OpenOptions => CommandEffect::OpenOptions,
            AppCommand::TriggerEncode => CommandEffect::TriggerEncode,
            AppCommand::Exit => CommandEffect::Exit,
        }
    }

    /// Starts encoding the queue: nothing when an encode runs or the queue
    /// is empty; otherwise marks the window as encoding and returns one job
    /// per queued file, in queue order, writing to the default output path
    /// with the queue recipe and the overwrite setting.
    pub fn start_encode(&mut self) -> (jobs: Option<Vec<EncodeJob>>)
        ensures
            final(self).dropped_paths@ == old(self).dropped_paths@,
            final(self).recipe == old(self).recipe,
            final(self).settings == old(self).settings,
            match jobs {
                None => (old(self).encoding || old(self).dropped_paths@.len() == 0) && final(self).encoding
                    == old(self).encoding,
                Some(js) => {
                    let rec = queue_recipe(*old(self));
                    &&& !old(self).encoding
                    &&& old(self).dropped_paths@.len() > 0
                    &&& final(self).encoding
                    &&& js@.len() == old(self).dropped_paths@.len()
                    &&& forall|i: int|
                        0 <= i < js@.len() ==> {
                            &&& (#[trigger] js@[i]).input@ == old(self).dropped_paths@[i]@
                            &&& js@[i].output@ == spec_default_output_path(old(self).dropped_paths@[i]@, rec)
                            &&& js@[i].recipe == rec
                            &&& js@[i].overwrite == old(self).settings.overwrite
                        }
                },
            },
    {
        if self.encoding || self.dropped_paths.len() == 0 {
            return None;
        }
        self.encoding = true;
        let mut recipe = self.recipe;
        recipe.video_bitrate_kbps = self.settings.video_bitrate_kbps;
        recipe.audio_bitrate_kbps = self.settings.audio_bitrate_kbps;
        let mut jobs: Vec<EncodeJob> = Vec::new();
        let mut i: usize = 0;
        while i < self.dropped_paths.len()
            invariant
                i <= self.dropped_paths@.len(),
                self.dropped_paths@ == old(self).dropped_paths@,
                self.settings == old(self).settings,
                recipe == queue_recipe(*old(self)),
                jobs@.len() == i,
                forall|j: int|
                    0 <= j < i ==> {
                        &&& (#[trigger] jobs@[j]).input@ == old(self).dropped_paths@[j]@
                        &&& jobs@[j].output@ == spec_default_output_path(old(self).dropped_paths@[j]@, recipe)
                        &&& jobs@[j].recipe == recipe
                        &&& jobs@[j].overwrite == old(self).settings.overwrite
                    },
            decreases self.dropped_paths@.len() - i,
        {
            let input = self.dropped_paths[i].clone();
            let output = default_output_path(input.as_str(), recipe);
            jobs.push(EncodeJob::new(input, output, recipe, self.settings.overwrite));
            i = i + 1;
        }
        Some(jobs)
    }

    /// Ends an encode: the window is no longer encoding, and the queue is
    /// emptied when `clear_queue` (automatic encoding was on at the start).
    pub fn finish_encode(&mut self, clear_queue: bool)
        ensures
            !final(self).encoding,
            clear_queue ==> final(self).dropped_paths@.len() == 0,
            !clear_queue ==> final(self).dropped_paths@ == old(self).dropped_paths@,
            final(self).recipe == old(self).recipe,
            final(self).settings == old(self).settings,
    {
        self.encoding = false;
        if clear_queue {
            self.dropped_paths.clear();
        }
    }
}

proof fn lemma_add_unique_props(list: Seq<Seq<char>>, items: Seq<Seq<char>>)
    ensures
        no_duplicates(list) ==> no_duplicates(add_unique(list, items)),
        forall|x: Seq<char>| #[trigger] add_unique(list, items).contains(x) <==> (list.contains(x) || items.contains(x)),
        add_unique(list, items).len() >= list.len(),
        forall|i: int| 0 <= i < list.len() ==> #[trigger] add_unique(list, items)[i] == list[i],
    decreases items.len(),
{
    if items.len() > 0 {
        let rest = items.drop_last();
        lemma_add_unique_props(list, rest);
        let l = add_unique(list, rest);
        assert forall|x: Seq<char>| #[trigger] add_unique(list, items).contains(x) <==> (list.contains(x)
            || items.contains(x)) by {
            if items.contains(x) && !rest.contains(x) {
                assert(x == items.last()) by {
                    let k = choose|k: int| 0 <= k < items.len() && items[k] == x;
                    if k < items.len() - 1 {
                        assert(rest[k] == x);
                    }
                }
            }
            if rest.contains(x) {
                let k = choose|k: int| 0 <= k < rest.len() && rest[k] == x;
                assert(items[k] == x);
            }
            if !l.contains(items.last()) {
                assert(l.push(items.last()).contains(x) <==> (l.contains(x) || x == items.last())) by {
                    if l.push(items.last()).contains(x) && x != items.last() {
                        let k = choose|k: int| 0 <= k < l.push(items.last()).len() && l.push(items.last())[k] == x;
                        assert(l[k] == x);
                    }
                    if l.contains(x) {
                        let k = choose|k: int| 0 <= k < l.len() && l[k] == x;
                        assert(l.push(items.last())[k] == x);
                    }
                    if x == items.last() {
                        assert(l.push(items.last())[l.len() as int] == x);
                    }
                }
            }
        }
    }
}

/// Dropping files never queues a file twice, keeps everything queued
/// before, and queues exactly the MP4 files among the dropped ones.
pub proof fn lemma_queue_stays_unique(list: Seq<Seq<char>>, dropped: Seq<Seq<char>>)
    requires
        no_duplicates(list),
    ensures
        ({
            let mp4 = dropped.filter(|p: Seq<char>| spec_is_mp4(p));
            let after = add_unique(list, mp4);
            &&& no_duplicates(after)
            &&& forall|i: int| 0 <= i < list.len() ==> after[i] == list[i]
            &&& forall|x: Seq<char>| after.contains(x) <==> (list.contains(x) || mp4.contains(x))
        }),
{
    let mp4 = dropped.filter(|p: Seq<char>| spec_is_mp4(p));
    lemma_add_unique_props(list, mp4);
}

/// An encode of the queue uses the codecs last chosen for the drop window
/// (by `UpdateRecipe`) and only takes the bitrates from the settings.
pub proof fn lemma_queue_uses_chosen_codecs(s: DropState)
    ensures
        queue_recipe(s).audio == s.recipe.audio,
        queue_recipe(s).video == s.recipe.video,
        queue_recipe(s).video_bitrate_kbps == s.settings.video_bitrate_kbps,
        queue_recipe(s).audio_bitrate_kbps == s.settings.audio_bitrate_kbps,
{
}

} // verus!
