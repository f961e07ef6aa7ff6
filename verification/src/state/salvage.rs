//! Bringing the files of a turn back in order, after its process died or after
//! a redo of it was given up.

use crate::paths::{lies_in, path_lies_in, paths_are_same, same_path};
use crate::state::assets::{
    artifact_is_stored, asset_of_event, describe_artifact, image_is_stored, journal_asset,
    new_artifact, JournalAsset, JournalAssetModel,
};
use crate::state::checkpoint::{artifact_of, image_of};
use crate::state::db::{ConversationDb, DbModel};
use crate::state::rows::{TurnRow, TurnRowModel};
use crate::state::turns::turn_of;
use crate::state::types::{
    ArtifactAsset, ArtifactAssetData, ArtifactAssetDataModel, ArtifactAssetModel, ImageAsset,
    ImageAssetData, ImageAssetDataModel, ImageAssetModel, Turn, TurnJournalEvent,
    TurnJournalEventModel, TurnModel,
};
use crate::table::{any, exists_row, first, first_row, map_rows, select, Row};
use crate::text::same;
use vstd::prelude::*;

verus! {

/// A file that was found where the journal said.
pub struct FoundFile {
    /// The path as the journal has it.
    pub path: String,
    /// The path without links and detours, where there is one.
    pub source_key: Option<String>,
    pub file_name: String,
    pub mime: String,
    pub kind: String,
    pub bytes: Vec<u8>,
}

/// The model of [`FoundFile`].
#[verifier::ext_equal]
pub struct FoundFileModel {
    pub path: Seq<char>,
    pub source_key: Option<Seq<char>>,
    pub file_name: Seq<char>,
    pub mime: Seq<char>,
    pub kind: Seq<char>,
    pub bytes: Seq<u8>,
}

impl DeepView for FoundFile {
    type V = FoundFileModel;

    open spec fn deep_view(&self) -> FoundFileModel {
        FoundFileModel {
            path: self.path@,
            source_key: self.source_key.deep_view(),
            file_name: self.file_name@,
            mime: self.mime@,
            kind: self.kind@,
            bytes: self.bytes@,
        }
    }
}

impl Row for FoundFile {
    fn dup(&self) -> (copy: Self) {
        let bytes = self.bytes.dup();
        assert(bytes@ =~= bytes.deep_view());
        assert(self.bytes@ =~= self.bytes.deep_view());
        FoundFile {
            path: self.path.dup(),
            source_key: self.source_key.dup(),
            file_name: self.file_name.dup(),
            mime: self.mime.dup(),
            kind: self.kind.dup(),
            bytes,
        }
    }
}

pub open spec fn at_path(path: Seq<char>) -> spec_fn(FoundFileModel) -> bool {
    |f: FoundFileModel| f.path == path
}

pub open spec fn turn_named(turn_id: Seq<char>) -> spec_fn(TurnModel) -> bool {
    |t: TurnModel| t.turn_id == turn_id
}

pub open spec fn image_part() -> spec_fn(ImageAssetDataModel) -> ImageAssetModel {
    |r: ImageAssetDataModel| r.asset
}

pub open spec fn artifact_part() -> spec_fn(ArtifactAssetDataModel) -> ArtifactAssetModel {
    |r: ArtifactAssetDataModel| r.asset
}

/// Whether an image of a tool call with a description is among some.
pub open spec fn has_image(
    images: Seq<ImageAssetModel>,
    call_id: Option<Seq<char>>,
    alt: Seq<char>,
) -> bool {
    exists|i: int|
        0 <= i < images.len() && (#[trigger] images[i]).tool_id == call_id && images[i].alt == alt
}

/// Whether a produced file is among some.
pub open spec fn has_artifact(artifacts: Seq<ArtifactAssetModel>, source_key: Seq<char>) -> bool {
    exists|i: int| 0 <= i < artifacts.len() && (#[trigger] artifacts[i]).source_key == source_key
}

/// How far the journal of a turn has been gone through.
#[verifier::ext_equal]
pub struct SalvageModel {
    pub db: DbModel,
    /// The turn's images that are stored by now.
    pub images: Seq<ImageAssetModel>,
    /// The turn's produced files that are stored by now, or are to be.
    pub artifacts: Seq<ArtifactAssetModel>,
    /// The produced files that are to be stored.
    pub made: Seq<ArtifactAssetDataModel>,
}

impl SalvageModel {
    /// One event further: the file that it speaks of is taken over where it was
    /// found, is not stored yet, and can be. `own` is the session of the handle
    /// that takes it over, and that session's own directory.
    pub open spec fn step(
        self,
        own: (Seq<char>, Seq<char>),
        turn_id: Seq<char>,
        event: TurnJournalEventModel,
        files: Seq<FoundFileModel>,
        stamp: (u128, u64),
        now: Seq<char>,
    ) -> SalvageModel {
        match asset_of_event(event) {
            None => self,
            Some(JournalAssetModel::Image { path, alt }) => match first(files, at_path(path)) {
                None => self,
                Some(file) => if has_image(self.images, event.call_id, alt) {
                    self
                } else {
                    match self.db.save_image_asset(
                        turn_id,
                        event.call_id,
                        file.file_name,
                        file.bytes,
                        alt,
                        stamp.0,
                        stamp.1,
                        now,
                    ) {
                        Ok((db, asset)) => SalvageModel {
                            db,
                            images: self.images.push(asset),
                            ..self
                        },
                        Err(_) => self,
                    }
                },
            },
            Some(JournalAssetModel::Artifact { path, title }) => match first(files, at_path(path)) {
                None => self,
                Some(file) => match file.source_key {
                    None => self,
                    Some(source_key) => if has_artifact(self.artifacts, source_key) {
                        self
                    } else {
                        match new_artifact(
                            own.0,
                            turn_id,
                            event.call_id,
                            source_key,
                            file.file_name,
                            lies_in(source_key, own.1),
                            (file.mime, file.kind),
                            file.bytes.len(),
                            title,
                            now,
                        ) {
                            Ok(asset) => SalvageModel {
                                artifacts: self.artifacts.push(asset),
                                made: self.made.push(
                                    ArtifactAssetDataModel { asset, bytes: file.bytes },
                                ),
                                ..self
                            },
                            Err(_) => self,
                        }
                    },
                },
            },
        }
    }

    /// The first `n` events further.
    pub open spec fn steps(
        self,
        own: (Seq<char>, Seq<char>),
        turn_id: Seq<char>,
        events: Seq<TurnJournalEventModel>,
        files: Seq<FoundFileModel>,
        stamps: Seq<(u128, u64)>,
        now: Seq<char>,
        n: nat,
    ) -> SalvageModel
        decreases n,
    {
        if n == 0 {
            self
        } else {
            self.steps(
                own,
                turn_id,
                events,
                files,
                stamps,
                now,
                (n - 1) as nat,
            ).step(own, turn_id, events[n - 1], files, stamps[n - 1], now)
        }
    }
}

/// Where a produced file lies in the session's own directory.
pub struct ArtifactPlace {
    pub source_key: String,
    pub target: String,
}

/// The model of [`ArtifactPlace`].
#[verifier::ext_equal]
pub struct ArtifactPlaceModel {
    pub source_key: Seq<char>,
    pub target: Seq<char>,
}

impl DeepView for ArtifactPlace {
    type V = ArtifactPlaceModel;

    open spec fn deep_view(&self) -> ArtifactPlaceModel {
        ArtifactPlaceModel { source_key: self.source_key@, target: self.target@ }
    }
}

impl Row for ArtifactPlace {
    fn dup(&self) -> (copy: Self) {
        ArtifactPlace { source_key: self.source_key.dup(), target: self.target.dup() }
    }
}

pub open spec fn place_of(source_key: Seq<char>) -> spec_fn(ArtifactPlaceModel) -> bool {
    |p: ArtifactPlaceModel| p.source_key == source_key
}

/// The path of a produced file in the session's own directory.
pub open spec fn target_of(places: Seq<ArtifactPlaceModel>, source_key: Seq<char>) -> Option<
    Seq<char>,
> {
    match first(places, place_of(source_key)) {
        Some(place) => Some(place.target),
        None => None,
    }
}

/// The files that are written back: those of `rows` that have a place.
pub open spec fn writes(
    rows: Seq<ArtifactAssetDataModel>,
    places: Seq<ArtifactPlaceModel>,
) -> Seq<(Seq<char>, Seq<u8>)>
    decreases rows.len(),
{
    if rows.len() == 0 {
        Seq::empty()
    } else {
        let before = writes(rows.drop_last(), places);
        match target_of(places, rows.last().asset.source_key) {
            Some(target) => before.push((target, rows.last().bytes)),
            None => before,
        }
    }
}

impl DbModel {
    /// The journal of a turn of a session.
    pub open spec fn journal_of(self, session_id: Seq<char>, turn_id: Seq<char>) -> Seq<
        TurnJournalEventModel,
    > {
        match first(self.turns_where(turn_of(session_id)), turn_named(turn_id)) {
            Some(turn) => turn.journal_events,
            None => Seq::empty(),
        }
    }

    /// Before any event of a turn's journal has been gone through.
    pub open spec fn salvage(self, turn_id: Seq<char>) -> SalvageModel {
        SalvageModel {
            db: self,
            images: self.images.filter(image_of(turn_id)).map_values(image_part()),
            artifacts: self.artifacts.filter(artifact_of(turn_id)).map_values(artifact_part()),
            made: Seq::empty(),
        }
    }

    pub open spec fn recover_journal_assets(
        self,
        own: (Seq<char>, Seq<char>),
        session_id: Seq<char>,
        turn_id: Seq<char>,
        files: Seq<FoundFileModel>,
        stamps: Seq<(u128, u64)>,
        now: Seq<char>,
    ) -> (DbModel, Seq<ArtifactAssetDataModel>) {
        let events = self.journal_of(session_id, turn_id);
        let end = self.salvage(turn_id).steps(
            own,
            turn_id,
            events,
            files,
            stamps,
            now,
            events.len(),
        );
        (end.db, end.made)
    }

    /// Whether a file at `path` is one that a turn of the session produced.
    pub open spec fn keeps(
        self,
        session_id: Seq<char>,
        places: Seq<ArtifactPlaceModel>,
        path: Seq<char>,
    ) -> bool {
        any(self.artifacts, self.placed_at(session_id, places, path))
    }

    pub open spec fn placed_at(
        self,
        session_id: Seq<char>,
        places: Seq<ArtifactPlaceModel>,
        path: Seq<char>,
    ) -> spec_fn(ArtifactAssetDataModel) -> bool {
        |r: ArtifactAssetDataModel|
            {
                &&& any(self.turns, turn_in(session_id, r.asset.turn_id))
                &&& target_of(places, r.asset.source_key) matches Some(target) && same_path(
                    target,
                    path,
                )
            }
    }

    pub open spec fn superfluous(
        self,
        session_id: Seq<char>,
        places: Seq<ArtifactPlaceModel>,
    ) -> spec_fn(Seq<char>) -> bool {
        |path: Seq<char>| !self.keeps(session_id, places, path)
    }
}

/// Whether a turn is the given one of a session.
pub open spec fn turn_in(session_id: Seq<char>, turn_id: Seq<char>) -> spec_fn(
    TurnRowModel,
) -> bool {
    |r: TurnRowModel| r.turn_id == turn_id && r.session_id == session_id
}

fn target(places: &Vec<ArtifactPlace>, source_key: &str) -> (target: Option<String>)
    ensures
        target.deep_view() == target_of(places.deep_view(), source_key@),
{
    let here = |p: &ArtifactPlace| -> (b: bool)
        ensures
            b == place_of(source_key@)(p.deep_view()),
        { same(p.source_key.as_str(), source_key) };
    match first_row(places, &here, Ghost(place_of(source_key@))) {
        Some(place) => Some(place.target),
        None => None,
    }
}

impl ConversationDb {
    fn journal_of(&self, session_id: &str, turn_id: &str) -> (events: Vec<TurnJournalEvent>)
        ensures
            events.deep_view() == self@.journal_of(session_id@, turn_id@),
    {
        let turns = self.load_turns(session_id);
        let named = |t: &Turn| -> (b: bool)
            ensures
                b == turn_named(turn_id@)(t.deep_view()),
            { same(t.turn_id.as_str(), turn_id) };
        match first_row(&turns, &named, Ghost(turn_named(turn_id@))) {
            Some(turn) => turn.journal_events,
            None => {
                let none: Vec<TurnJournalEvent> = Vec::new();
                assert(none.deep_view() =~= Seq::<TurnJournalEventModel>::empty());
                none
            },
        }
    }

    /// How many events the journal of a turn holds.
    pub fn journal_len(&self, session_id: &str, turn_id: &str) -> (n: usize)
        ensures
            n == self@.journal_of(session_id@, turn_id@).len(),
    {
        self.journal_of(session_id, turn_id).len()
    }

    /// Takes over the files that an interrupted generation had produced, as far
    /// as they were found and are not stored yet. Images are stored; produced
    /// files are returned, to be stored by the caller. `stamps` are a time and a
    /// random number for each event. `own_session` and `own_dir` are the session
    /// of the handle that takes the files over, and that session's own directory.
    pub fn recover_journal_assets(
        &mut self,
        own_session: &str,
        own_dir: &str,
        session_id: &str,
        turn_id: &str,
        files: &Vec<FoundFile>,
        stamps: &Vec<(u128, u64)>,
        now: &str,
    ) -> (made: Vec<ArtifactAssetData>)
        requires
            old(self)@.journal_of(session_id@, turn_id@).len() <= stamps.len(),
        ensures
            (final(self)@, made.deep_view()) == old(self)@.recover_journal_assets(
                (own_session@, own_dir@),
                session_id@,
                turn_id@,
                files.deep_view(),
                stamps@,
                now@,
            ),
    {
        let ghost start = self@;
        let events = self.journal_of(session_id, turn_id);
        let image_here = |r: &ImageAssetData| -> (b: bool)
            ensures
                b == image_of(turn_id@)(r.deep_view()),
            { same(r.asset.turn_id.as_str(), turn_id) };
        let image = |r: &ImageAssetData| -> (a: ImageAsset)
            ensures
                a.deep_view() == image_part()(r.deep_view()),
            { r.asset.dup() };
        let artifact_here = |r: &ArtifactAssetData| -> (b: bool)
            ensures
                b == artifact_of(turn_id@)(r.deep_view()),
            { same(r.asset.turn_id.as_str(), turn_id) };
        let artifact = |r: &ArtifactAssetData| -> (a: ArtifactAsset)
            ensures
                a.deep_view() == artifact_part()(r.deep_view()),
            { r.asset.dup() };
        let rows = select(&self.images, &image_here, Ghost(image_of(turn_id@)));
        let mut images = map_rows(&rows, &image, Ghost(image_part()));
        let rows = select(&self.artifacts, &artifact_here, Ghost(artifact_of(turn_id@)));
        let mut artifacts = map_rows(&rows, &artifact, Ghost(artifact_part()));
        let mut made: Vec<ArtifactAssetData> = Vec::new();
        let mut i: usize = 0;
        let ghost begun = start.salvage(turn_id@);
        assert(made.deep_view() =~= begun.made);
        while i < events.len()
            invariant
                i <= events.len() <= stamps.len(),
                begun.steps(
                    (own_session@, own_dir@),
                    turn_id@,
                    events.deep_view(),
                    files.deep_view(),
                    stamps@,
                    now@,
                    i as nat,
                ) == (SalvageModel {
                    db: self@,
                    images: images.deep_view(),
                    artifacts: artifacts.deep_view(),
                    made: made.deep_view(),
                }),
            decreases events.len() - i,
        {
            let event = &events[i];
            assert(events.deep_view()[i as int] == event.deep_view());
            let call_id = match &event.call_id {
                Some(id) => Some(id.as_str()),
                None => None,
            };
            let ghost images_before = images.deep_view();
            let ghost artifacts_before = artifacts.deep_view();
            let ghost made_before = made.deep_view();
            match journal_asset(event) {
                None => {},
                Some(JournalAsset::Image { path, alt }) => {
                    let there = |f: &FoundFile| -> (b: bool)
                        ensures
                            b == at_path(path@)(f.deep_view()),
                        { same(f.path.as_str(), path.as_str()) };
                    if let Some(file) = first_row(files, &there, Ghost(at_path(path@))) {
                        let known = image_is_stored(&images, call_id, alt.as_str());
                        assert(known == has_image(images_before, call_id.deep_view(), alt@));
                        if !known {
                            if let Ok(asset) = self.save_image_asset(
                                turn_id,
                                call_id,
                                file.file_name.as_str(),
                                &file.bytes,
                                alt.as_str(),
                                stamps[i].0,
                                stamps[i].1,
                                now,
                            ) {
                                images.push(asset);
                                assert(images.deep_view() =~= images_before.push(
                                    asset.deep_view(),
                                ));
                            }
                        }
                    }
                },
                Some(JournalAsset::Artifact { path, title }) => {
                    let there = |f: &FoundFile| -> (b: bool)
                        ensures
                            b == at_path(path@)(f.deep_view()),
                        { same(f.path.as_str(), path.as_str()) };
                    if let Some(file) = first_row(files, &there, Ghost(at_path(path@))) {
                        if let Some(source_key) = &file.source_key {
                            let known = artifact_is_stored(&artifacts, source_key.as_str());
                            assert(known == has_artifact(artifacts_before, source_key@));
                            if !known {
                                if let Ok(asset) = describe_artifact(
                                    own_session,
                                    turn_id,
                                    call_id,
                                    source_key.as_str(),
                                    file.file_name.as_str(),
                                    path_lies_in(source_key.as_str(), own_dir),
                                    file.mime.as_str(),
                                    file.kind.as_str(),
                                    file.bytes.len(),
                                    title.as_str(),
                                    now,
                                ) {
                                    assert(file.bytes.deep_view() =~= file.bytes@);
                                    let row = ArtifactAssetData {
                                        asset: asset.dup(),
                                        bytes: file.bytes,
                                    };
                                    artifacts.push(asset);
                                    made.push(row);
                                    assert(artifacts.deep_view() =~= artifacts_before.push(
                                        asset.deep_view(),
                                    ));
                                    assert(made.deep_view() =~= made_before.push(row.deep_view()));
                                }
                            }
                        }
                    }
                },
            }
            i += 1;
        }
        made
    }

    /// The produced files of a turn that are to be written back to their places.
    pub fn artifacts_to_restore(&self, turn_id: &str, places: &Vec<ArtifactPlace>) -> (list: Vec<
        (String, Vec<u8>),
    >)
        ensures
            list.deep_view() == writes(
                self@.artifacts.filter(artifact_of(turn_id@)),
                places.deep_view(),
            ),
    {
        let here = |r: &ArtifactAssetData| -> (b: bool)
            ensures
                b == artifact_of(turn_id@)(r.deep_view()),
            { same(r.asset.turn_id.as_str(), turn_id) };
        let rows = select(&self.artifacts, &here, Ghost(artifact_of(turn_id@)));
        let mut list: Vec<(String, Vec<u8>)> = Vec::new();
        let mut i: usize = 0;
        assert(list.deep_view() =~= writes(rows.deep_view().take(0), places.deep_view()));
        while i < rows.len()
            invariant
                i <= rows.len(),
                list.deep_view() == writes(rows.deep_view().take(i as int), places.deep_view()),
            decreases rows.len() - i,
        {
            let ghost all = rows.deep_view();
            let ghost before = list.deep_view();
            assert(all.take(i + 1).drop_last() =~= all.take(i as int));
            assert(all.take(i + 1).last() == rows[i as int].deep_view());
            if let Some(path) = target(places, rows[i].asset.source_key.as_str()) {
                let item = (path, rows[i].bytes.dup());
                list.push(item);
                assert(list.deep_view() =~= before.push(item.deep_view()));
            }
            i += 1;
        }
        assert(rows.deep_view().take(i as int) =~= rows.deep_view());
        list
    }

    /// The files in a session's own directory that no turn of it produced.
    pub fn artifacts_to_remove(
        &self,
        session_id: &str,
        places: &Vec<ArtifactPlace>,
        entries: &Vec<String>,
    ) -> (list: Vec<String>)
        ensures
            list.deep_view() == entries.deep_view().filter(
                self@.superfluous(session_id@, places.deep_view()),
            ),
    {
        let idle = |path: &String| -> (b: bool)
            ensures
                b == self@.superfluous(session_id@, places.deep_view())(path.deep_view()),
            {
                let placed = |r: &ArtifactAssetData| -> (b: bool)
                    ensures
                        b == self@.placed_at(session_id@, places.deep_view(), path@)(r.deep_view()),
                    {
                        let mine = |t: &TurnRow| -> (b: bool)
                            ensures
                                b == turn_in(session_id@, r.deep_view().asset.turn_id)(
                                    t.deep_view(),
                                ),
                            {
                                same(t.turn_id.as_str(), r.asset.turn_id.as_str()) && same(
                                    t.session_id.as_str(),
                                    session_id,
                                )
                            };
                        exists_row(
                            &self.turns,
                            &mine,
                            Ghost(turn_in(session_id@, r.deep_view().asset.turn_id)),
                        ) && match target(places, r.asset.source_key.as_str()) {
                            Some(found) => paths_are_same(found.as_str(), path.as_str()),
                            None => false,
                        }
                    };
                !exists_row(
                    &self.artifacts,
                    &placed,
                    Ghost(self@.placed_at(session_id@, places.deep_view(), path@)),
                )
            };
        select(entries, &idle, Ghost(self@.superfluous(session_id@, places.deep_view())))
    }
}

} // verus!
