//! The session: the loaded images, the uploads that are being read, and the
//! configuration of the filter. Every event is handled to its end, and none
//! leaves the session in a state that is not valid.

use vstd::prelude::*;
use crate::pending::{name_views, PendingSet};
use crate::quantize::{is_valid_level, valid_level};
use crate::grid::{GridModel, PixelGrid};
use crate::media::is_image_type;
use crate::record::{
    accept_upload,
    acceptance_error,
    decode_upload,
    grid_view,
    ImageRecord,
    RecordModel,
    SessionError,
};

verus! {

/// The level at which a new session quantizes: buckets of 32.
pub const DEFAULT_COLOR_QUANTIZATION: u8 = 5;

/// The swap strength of a new session: three draws in ten swap.
pub const DEFAULT_PIXEL_SWITCH: u8 = 3;

/// The largest swap strength: every draw swaps.
pub const MAX_PIXEL_SWITCH: u8 = 10;

/// Whether a swap strength is one that the session accepts.
pub open spec fn valid_strength(strength: int) -> bool {
    0 <= strength <= MAX_PIXEL_SWITCH
}

/// A new value for one field of the configuration.
#[derive(Debug, Clone, Copy, PartialEq, Eq, Structural)]
pub enum ConfigType {
    /// The quantization level, from 1 to 7.
    ColQu(u8),
    /// The swap strength, from 0 to 10.
    PixSw(u8),
}

impl ConfigType {
    /// Whether the value lies in the range of its field.
    pub open spec fn in_range(self) -> bool {
        match self {
            ConfigType::ColQu(level) => valid_level(level as int),
            ConfigType::PixSw(strength) => valid_strength(strength as int),
        }
    }

    /// Tells whether the value lies in the range of its field.
    pub fn is_in_range(&self) -> (valid: bool)
        ensures
            valid == self.in_range(),
    {
        match self {
            ConfigType::ColQu(level) => is_valid_level(*level),
            ConfigType::PixSw(strength) => *strength <= MAX_PIXEL_SWITCH,
        }
    }
}

/// An event that the session handles.
#[derive(Debug, Clone, PartialEq, Eq)]
pub enum Msg {
    /// The bytes of an upload have arrived: file name, declared media type,
    /// bytes.
    Loaded(String, String, Vec<u8>),
    /// Files were submitted and are now being read: their names.
    Files(Vec<String>),
    /// A field of the configuration is to change.
    UpdateConfig(ConfigType),
}

/// What the host has to do after an event.
#[derive(Debug, Clone, Copy, PartialEq, Eq, Structural)]
pub enum Action {
    /// The session was updated: show it again.
    Render,
    /// The event was refused and the session is as it was, but for the
    /// upload that has settled: tell the user why.
    Alert(SessionError),
}

impl Action {
    /// Whether the host has to show the session again.
    pub fn should_render(&self) -> (render: bool)
        ensures
            render == (*self == Action::Render),
    {
        match self {
            Action::Render => true,
            Action::Alert(_) => false,
        }
    }
}

/// What a session is.
#[verifier::ext_equal]
pub struct SessionModel {
    /// Names of the uploads that are being read.
    pub pending: Set<Seq<char>>,
    /// The loaded images, in the order in which they were loaded.
    pub records: Seq<RecordModel>,
    pub color_quantization: int,
    pub pixel_switch: int,
}

impl SessionModel {
    /// Both configuration values lie in their ranges, and every rendering is
    /// one of its image under that configuration.
    pub open spec fn wf(self) -> bool {
        &&& valid_level(self.color_quantization)
        &&& valid_strength(self.pixel_switch)
        &&& all_rendered(self.records, self.color_quantization, self.pixel_switch)
    }

    /// The configuration after a valid change.
    pub open spec fn configured(self, change: ConfigType) -> (int, int) {
        match change {
            ConfigType::ColQu(level) => (level as int, self.pixel_switch),
            ConfigType::PixSw(strength) => (self.color_quantization, strength as int),
        }
    }

    /// `post` and `action` are what the arrival of an upload makes of the
    /// session, given what its bytes decoded to: the upload is no longer
    /// pending; where it is refused the records stay and the host alerts;
    /// else its record is appended.
    pub open spec fn loaded(
        self,
        name: Seq<char>,
        media_type: Seq<char>,
        bytes: Seq<u8>,
        decoded: Option<GridModel>,
        post: SessionModel,
        action: Action,
    ) -> bool {
        &&& post.pending == self.pending.remove(name)
        &&& post.color_quantization == self.color_quantization
        &&& post.pixel_switch == self.pixel_switch
        &&& match acceptance_error(media_type, decoded) {
            Some(error) => action == Action::Alert(error) && post.records == self.records,
            None => {
                &&& action == Action::Render
                &&& post.records.len() == self.records.len() + 1
                &&& post.records.drop_last() == self.records
                &&& post.records.last().name == name
                &&& post.records.last().media_type == media_type
                &&& post.records.last().source_bytes == bytes
                &&& Some(post.records.last().source_pixels) == decoded
            },
        }
    }

    /// `post` and `action` are what the arrival of an upload makes of the
    /// session for some outcome of the decoding.
    pub open spec fn arrived(
        self,
        name: Seq<char>,
        media_type: Seq<char>,
        bytes: Seq<u8>,
        post: SessionModel,
        action: Action,
    ) -> bool {
        exists|decoded: Option<GridModel>| #[trigger]
            self.loaded(name, media_type, bytes, decoded, post, action)
    }

    /// `post` and `action` are what the submission of files makes of the
    /// session: their names are pending, nothing else changes.
    pub open spec fn submitted(self, names: Seq<Seq<char>>, post: SessionModel, action: Action) -> bool {
        &&& post.pending == self.pending.union(names.to_set())
        &&& post.records == self.records
        &&& post.color_quantization == self.color_quantization
        &&& post.pixel_switch == self.pixel_switch
        &&& action == Action::Render
    }

    /// `post` and `action` are what a configuration change makes of the
    /// session: a value out of range is refused and nothing changes; else
    /// the field is set and every record keeps all but its rendering.
    pub open spec fn reconfigured(self, change: ConfigType, post: SessionModel, action: Action) -> bool {
        if change.in_range() {
            &&& action == Action::Render
            &&& (post.color_quantization, post.pixel_switch) == self.configured(change)
            &&& post.pending == self.pending
            &&& same_sources(post.records, self.records)
        } else {
            action == Action::Alert(SessionError::InvalidConfigValue) && post == self
        }
    }

    /// `post` and `action` are what the event makes of the session.
    pub open spec fn step(self, msg: Msg, post: SessionModel, action: Action) -> bool {
        match msg {
            Msg::Loaded(name, media_type, bytes) => self.arrived(
                name@,
                media_type@,
                bytes@,
                post,
                action,
            ),
            Msg::Files(names) => self.submitted(name_views(names@), post, action),
            Msg::UpdateConfig(change) => self.reconfigured(change, post, action),
        }
    }
}

/// Every record holds a well-formed image.
pub open spec fn sources_wf(records: Seq<RecordModel>) -> bool {
    forall|i: int| 0 <= i < records.len() ==> (#[trigger] records[i]).source_pixels.wf()
}

/// Every rendering is one of its image at level `q` and swap strength
/// `strength`.
pub open spec fn all_rendered(records: Seq<RecordModel>, q: int, strength: int) -> bool {
    forall|i: int| 0 <= i < records.len() ==> (#[trigger] records[i]).rendered_under(q, strength)
}

/// The two sequences hold the same records in the same order, but for the
/// renderings.
pub open spec fn same_sources(after: Seq<RecordModel>, before: Seq<RecordModel>) -> bool {
    &&& after.len() == before.len()
    &&& forall|i: int| 0 <= i < before.len() ==> (#[trigger] after[i]).same_source(before[i])
}

/// Across any event the records persist: each stays at its place with its
/// name, media type, image and bytes, at most one record is appended, and
/// an event that is refused leaves the records as they were.
pub proof fn lemma_records_persist(pre: SessionModel, msg: Msg, post: SessionModel, action: Action)
    requires
        pre.step(msg, post, action),
    ensures
        pre.records.len() <= post.records.len() <= pre.records.len() + 1,
        forall|i: int|
            0 <= i < pre.records.len() ==> (#[trigger] post.records[i]).same_source(pre.records[i]),
        action is Alert ==> post.records == pre.records,
{
    match msg {
        Msg::Loaded(name, media_type, bytes) => {
            let decoded = choose|decoded: Option<GridModel>| #[trigger]
                pre.loaded(name@, media_type@, bytes@, decoded, post, action);
            if acceptance_error(media_type@, decoded) is None {
                assert forall|i: int| 0 <= i < pre.records.len() implies (#[trigger] post.records[i])
                    == pre.records[i] by {
                    assert(post.records.drop_last()[i] == post.records[i]);
                }
            }
        },
        Msg::Files(names) => {},
        Msg::UpdateConfig(change) => {},
    }
}

/// Recompute completeness: a valid change of the configuration keeps every
/// record, in its place and with all but its rendering, and leaves every
/// rendering one of its image under the new configuration.
pub proof fn lemma_change_renders_all(
    pre: SessionModel,
    change: ConfigType,
    post: SessionModel,
    action: Action,
)
    requires
        change.in_range(),
        pre.step(Msg::UpdateConfig(change), post, action),
        post.wf(),
    ensures
        action == Action::Render,
        same_sources(post.records, pre.records),
        all_rendered(post.records, pre.configured(change).0, pre.configured(change).1),
{
}

/// An upload whose declared media type does not denote an image is refused
/// as not an image, whatever its bytes hold, and no record is added.
pub proof fn lemma_other_type_is_refused(
    pre: SessionModel,
    name: String,
    media_type: String,
    bytes: Vec<u8>,
    post: SessionModel,
    action: Action,
)
    requires
        !is_image_type(media_type@),
        pre.step(Msg::Loaded(name, media_type, bytes), post, action),
    ensures
        action == Action::Alert(SessionError::NotAnImage),
        post.records == pre.records,
{
}

/// The models of a sequence of records.
pub open spec fn record_views(records: Seq<ImageRecord>) -> Seq<RecordModel> {
    records.map_values(|record: ImageRecord| record@)
}

/// The state of one interactive session.
#[derive(Debug, Clone, PartialEq, Eq)]
pub struct App {
    readers: PendingSet,
    image_pairs: Vec<ImageRecord>,
    color_quantization: u8,
    pixel_switch: u8,
}

impl View for App {
    type V = SessionModel;

    closed spec fn view(&self) -> SessionModel {
        SessionModel {
            pending: self.readers@,
            records: record_views(self.image_pairs@),
            color_quantization: self.color_quantization as int,
            pixel_switch: self.pixel_switch as int,
        }
    }
}

impl App {
    /// Validity of the set of pending names.
    pub closed spec fn pending_wf(&self) -> bool {
        self.readers.wf()
    }

    /// Validity of the session: that of its model, and of its set of
    /// pending names.
    pub open spec fn wf(&self) -> bool {
        self@.wf() && self.pending_wf()
    }

    /// A new session: no image, no upload, the default configuration.
    pub fn create() -> (app: App)
        ensures
            app.wf(),
            app@ == (SessionModel {
                pending: Set::empty(),
                records: Seq::empty(),
                color_quantization: DEFAULT_COLOR_QUANTIZATION as int,
                pixel_switch: DEFAULT_PIXEL_SWITCH as int,
            }),
    {
        let app = App {
            readers: PendingSet::new(),
            image_pairs: Vec::new(),
            color_quantization: DEFAULT_COLOR_QUANTIZATION,
            pixel_switch: DEFAULT_PIXEL_SWITCH,
        };
        assert(app@ =~= (SessionModel {
            pending: Set::empty(),
            records: Seq::empty(),
            color_quantization: DEFAULT_COLOR_QUANTIZATION as int,
            pixel_switch: DEFAULT_PIXEL_SWITCH as int,
        }));
        app
    }

    /// The current quantization level.
    pub fn color_quantization(&self) -> (level: u8)
        ensures
            level as int == self@.color_quantization,
    {
        self.color_quantization
    }

    /// The current swap strength.
    pub fn pixel_switch(&self) -> (strength: u8)
        ensures
            strength as int == self@.pixel_switch,
    {
        self.pixel_switch
    }

    /// The loaded images, in the order in which they were loaded.
    pub fn image_pairs(&self) -> (records: &Vec<ImageRecord>)
        ensures
            record_views(records@) == self@.records,
    {
        &self.image_pairs
    }

    /// Whether an upload of this name is being read.
    pub fn is_pending(&self, name: &String) -> (pending: bool)
        ensures
            pending == self@.pending.contains(name@),
    {
        self.readers.contains(name)
    }

    /// Number of uploads that are being read.
    pub fn pending_count(&self) -> (count: usize)
        requires
            self.wf(),
        ensures
            count == self@.pending.len(),
            self@.pending.finite(),
    {
        self.readers.len()
    }

    /// Handles the arrival of an upload whose bytes have been decoded:
    /// `decoded` is the grid, if the decoding gave one.
    pub fn load(
        &mut self,
        file_name: String,
        file_type: String,
        data: Vec<u8>,
        decoded: Option<PixelGrid>,
    ) -> (action: Action)
        requires
            old(self).wf(),
            decoded is Some ==> decoded->0.wf(),
        ensures
            final(self).wf(),
            old(self)@.loaded(
                file_name@,
                file_type@,
                data@,
                grid_view(decoded),
                final(self)@,
                action,
            ),
    {
        self.readers.remove(&file_name);
        let outcome = accept_upload(
            file_name,
            file_type,
            data,
            decoded,
            self.color_quantization,
            self.pixel_switch,
        );
        match outcome {
            Ok(record) => {
                let ghost before = record_views(self.image_pairs@);
                self.image_pairs.push(record);
                proof {
                    let after = record_views(self.image_pairs@);
                    assert(after =~= before.push(record@));
                    assert(after.drop_last() =~= before);
                }
                Action::Render
            },
            Err(error) => Action::Alert(error),
        }
    }

    /// Registers submitted files as pending.
    fn submit(&mut self, files: Vec<String>) -> (action: Action)
        requires
            old(self).wf(),
        ensures
            final(self).wf(),
            old(self)@.submitted(name_views(files@), final(self)@, action),
    {
        let ghost names = name_views(files@);
        let mut i: usize = 0;
        while i < files.len()
            invariant
                i <= files@.len(),
                names == name_views(files@),
                self.readers.wf(),
                self.readers@ == old(self).readers@.union(names.take(i as int).to_set()),
                self.image_pairs == old(self).image_pairs,
                self.color_quantization == old(self).color_quantization,
                self.pixel_switch == old(self).pixel_switch,
            decreases files@.len() - i,
        {
            let name = files[i].clone();
            self.readers.insert(name);
            proof {
                let done = names.take(i as int);
                let next = names.take(i + 1);
                assert(next =~= done.push(names[i as int]));
                assert(names[i as int] == files@[i as int]@);
                assert forall|a: Seq<char>| next.contains(a) <==> done.contains(a) || a
                    == names[i as int] by {
                    if done.contains(a) {
                        let j = choose|j: int| 0 <= j < done.len() && done[j] == a;
                        assert(next[j] == a);
                    }
                    if a == names[i as int] {
                        assert(next[i as int] == a);
                    }
                }
                assert(self.readers@ =~= old(self).readers@.union(next.to_set()));
            }
            i += 1;
        }
        proof {
            assert(names.take(files@.len() as int) =~= names);
        }
        Action::Render
    }

    /// Runs the filter again on every loaded image.
    fn rerender(&mut self)
        requires
            valid_level(old(self).color_quantization as int),
            valid_strength(old(self).pixel_switch as int),
            old(self).readers.wf(),
            sources_wf(old(self)@.records),
        ensures
            final(self).wf(),
            final(self)@.pending == old(self)@.pending,
            final(self)@.color_quantization == old(self)@.color_quantization,
            final(self)@.pixel_switch == old(self)@.pixel_switch,
            same_sources(final(self)@.records, old(self)@.records),
    {
        let color_quantization = self.color_quantization;
        let pixel_switch = self.pixel_switch;
        let ghost before = self@.records;
        let mut i: usize = 0;
        while i < self.image_pairs.len()
            invariant
                i <= self.image_pairs@.len(),
                valid_level(color_quantization as int),
                self.readers == old(self).readers,
                self.color_quantization == color_quantization == old(self).color_quantization,
                self.pixel_switch == pixel_switch == old(self).pixel_switch,
                before == old(self)@.records,
                sources_wf(before),
                same_sources(self@.records, before),
                all_rendered(self@.records.take(i as int), color_quantization as int, pixel_switch as int),
            decreases self.image_pairs@.len() - i,
        {
            let ghost prior = self@.records;
            assert(prior[i as int] == self.image_pairs@[i as int]@);
            self.image_pairs[i].render(color_quantization, pixel_switch);
            proof {
                let later = self@.records;
                assert(later =~= prior.update(i as int, self.image_pairs@[i as int]@));
                assert(later.take(i + 1) =~= prior.take(i as int).push(later[i as int]));
            }
            i += 1;
        }
        proof {
            assert(self@.records.take(i as int) =~= self@.records);
        }
    }

    /// Handles a change of the configuration.
    fn configure(&mut self, change: ConfigType) -> (action: Action)
        requires
            old(self).wf(),
        ensures
            final(self).wf(),
            old(self)@.reconfigured(change, final(self)@, action),
    {
        if !change.is_in_range() {
            return Action::Alert(SessionError::InvalidConfigValue);
        }
        match change {
            ConfigType::ColQu(level) => {
                self.color_quantization = level;
            },
            ConfigType::PixSw(strength) => {
                self.pixel_switch = strength;
            },
        }
        self.rerender();
        Action::Render
    }

    /// Handles one event to its end and says what the host has to do.
    ///
    /// Whatever the event, the session stays valid: its configuration lies
    /// in range and every rendering is one of its image under the current
    /// configuration. No record is dropped, doubled or reordered, and of a
    /// record only the rendering ever changes.
    pub fn update(&mut self, msg: Msg) -> (action: Action)
        requires
            old(self).wf(),
        ensures
            final(self).wf(),
            old(self)@.step(msg, final(self)@, action),
    {
        match msg {
            Msg::Loaded(file_name, file_type, data) => {
                let decoded = decode_upload(&data, file_type.as_str());
                self.load(file_name, file_type, data, decoded)
            },
            Msg::Files(files) => self.submit(files),
            Msg::UpdateConfig(change) => self.configure(change),
        }
    }
}

} // verus!
