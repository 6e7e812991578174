//! The window around a project: activities, the feed, selections and caches.
use scene_editor::activity::{
    begin_activity, end_activity, set_compile_progress, set_load_phase, Activities, COMPILE_ID,
    LOAD_PHASE_ID,
};
use scene_editor::activity_feed::{
    clear, describe, narrate, narrate_batch, Feed, FocusTarget, MAX_ENTRIES,
};
use scene_editor::asset_edit::intern_buffer_asset;
use scene_editor::assets::{
    content_hash, file_name_of, texture_file_name, words_to_bytes, AssetEntry, PrimitiveShape,
};
use scene_editor::buffer_cache;
use scene_editor::cluster_cache;
use scene_editor::command::{EditorCommand, OutsideCommand};
use scene_editor::compiling::{
    after_try, compiling_text, import_failure_text, AfterTry, Debounce, Settle, FIRST_TRIES,
};
use scene_editor::errors::EditorError;
use scene_editor::ids::{captured_snapshot_id, pack, AssetId, NodeId};
use scene_editor::library_edit::LibraryCommand;
use scene_editor::list::List;
use scene_editor::node_edit::{NodeCommand, NodeEdit};
use scene_editor::scene_edit::InsertSpec;
use scene_editor::selections::{CompileCount, ConsoleLog, VertexSelections, CONSOLE_LOG_CAP};
use scene_editor::session::{EditorMode, Session, ViewCommand, ViewPatch};
use scene_editor::table::Table;
use scene_editor::text::{any_ink, contains_text, decimal_text, hex_text};
use scene_editor::timeline::TransportCommand;
use scene_editor::values::{F32, F64};

fn shown(a: &Activities) -> Vec<(u64, String)> {
    a.activities().clone()
}

fn phrases(f: &Feed) -> Vec<String> {
    f.feed().iter().map(|e| e.phrase.clone()).collect()
}

fn no_patch() -> ViewPatch {
    ViewPatch {
        grid: None,
        gizmos: None,
        light_gizmos: None,
        skeleton_viz: None,
        follow_agent: None,
        activity_overlay: None,
        mcp_notifications: None,
        msaa: None,
        smaa: None,
    }
}

fn delete() -> EditorCommand {
    EditorCommand::Delete { id: NodeId(1) }
}

fn rename(to: &str) -> EditorCommand {
    EditorCommand::Node(NodeCommand { node: NodeId(1), edit: NodeEdit::Rename(to.to_string()) })
}

fn select() -> EditorCommand {
    EditorCommand::View(ViewCommand::SetSelection(List::from_vec(vec![NodeId(1)])))
}

#[test]
fn ended_activity_is_gone() {
    let mut a = Activities::new();
    let first = begin_activity(&mut a, "Loading".to_string());
    let second = begin_activity(&mut a, "Saving".to_string());
    assert_eq!(shown(&a), vec![(0, "Loading".to_string()), (1, "Saving".to_string())]);
    end_activity(&mut a, first);
    assert_eq!(shown(&a), vec![(1, "Saving".to_string())]);
    end_activity(&mut a, second);
    assert!(shown(&a).is_empty());
}

#[test]
fn compile_progress_stands_in_front() {
    let mut a = Activities::new();
    let _keep = begin_activity(&mut a, "Loading".to_string());
    set_compile_progress(&mut a, 1, 0);
    assert_eq!(shown(&a)[0], (COMPILE_ID, "Compiling 1 material\u{2026}".to_string()));
    set_compile_progress(&mut a, 3, 0);
    assert_eq!(shown(&a)[0].1, "Compiling 3 materials\u{2026}");
    set_compile_progress(&mut a, 3, 1);
    assert_eq!(shown(&a)[0].1, "Compiling 1 render pipeline\u{2026}");
    set_compile_progress(&mut a, 0, 2);
    assert_eq!(shown(&a)[0].1, "Compiling 2 render pipelines\u{2026}");
    assert_eq!(shown(&a).len(), 2);
    set_compile_progress(&mut a, 0, 0);
    assert_eq!(shown(&a), vec![(0, "Loading".to_string())]);
}

#[test]
fn load_phase_comes_and_goes() {
    let mut a = Activities::new();
    set_load_phase(&mut a, Some("Reading".to_string()));
    set_load_phase(&mut a, Some("Building".to_string()));
    assert_eq!(shown(&a), vec![(LOAD_PHASE_ID, "Building".to_string())]);
    set_load_phase(&mut a, None);
    assert!(shown(&a).is_empty());
}

#[test]
fn commands_are_told_in_words() {
    let insert = EditorCommand::Insert {
        id: NodeId(1),
        spec: InsertSpec::Primitive(PrimitiveShape::Plane {
            width: F32::one(),
            depth: F32::one(),
        }),
        parent: None,
    };
    assert_eq!(describe(&insert), Some((FocusTarget::Outliner, "added a plane".to_string())));
    assert_eq!(
        describe(&rename("Door")),
        Some((FocusTarget::Outliner, "renamed a node to \u{201c}Door\u{201d}".to_string()))
    );
    assert!(describe(&select()).is_none());
    assert!(describe(&EditorCommand::Outside(OutsideCommand::FrameNode)).is_none());
}

#[test]
fn command_without_a_phrase_is_told_by_its_name() {
    let c = EditorCommand::View(ViewCommand::SetViewOptions(no_patch()));
    let name = c.label().to_string();
    assert_ne!(name, name.to_lowercase());
    assert_eq!(
        describe(&c),
        Some((FocusTarget::Nowhere, format!("ran {}", name.to_lowercase())))
    );
}

#[test]
fn feed_lights_a_panel_until_it_expires() {
    let mut f = Feed::new();
    let first = narrate(&mut f, &delete());
    assert_eq!(first, Some(1));
    let second = narrate(&mut f, &rename("A"));
    assert_eq!(second, Some(2));
    assert_eq!(f.focus(), Some(FocusTarget::Outliner));
    f.expire(1);
    assert_eq!(f.focus(), Some(FocusTarget::Outliner), "it was lit anew");
    f.expire(2);
    assert_eq!(f.focus(), None);
    assert_eq!(phrases(&f).len(), 2);
    clear(&mut f);
    assert!(phrases(&f).is_empty());
}

#[test]
fn feed_holds_the_newest() {
    let mut f = Feed::new();
    for i in 0..MAX_ENTRIES + 5 {
        narrate(&mut f, &rename(&format!("n{i}")));
    }
    let p = phrases(&f);
    assert_eq!(p.len(), MAX_ENTRIES);
    assert_eq!(p[0], "renamed a node to \u{201c}n5\u{201d}");
    assert_eq!(p[MAX_ENTRIES - 1], format!("renamed a node to \u{201c}n{}\u{201d}", MAX_ENTRIES + 4));
}

#[test]
fn batch_is_told_by_what_is_worth_it() {
    let mut f = Feed::new();
    assert_eq!(narrate_batch(&mut f, &vec![select(), delete()]), Some(1));
    assert_eq!(phrases(&f), vec!["deleted a node".to_string()]);
    assert_eq!(narrate(&mut f, &EditorCommand::Batch(vec![select(), rename("B")])), Some(2));
    assert_eq!(phrases(&f)[1], "renamed a node to \u{201c}B\u{201d}");
    assert_eq!(narrate_batch(&mut f, &vec![select()]), None);
    assert_eq!(narrate_batch(&mut f, &Vec::new()), None);
    assert_eq!(phrases(&f).len(), 2);
    let scrub = EditorCommand::Transport(TransportCommand::SetPlayhead { time: F64::zero() });
    assert!(describe(&scrub).is_none());
    assert_eq!(narrate_batch(&mut f, &vec![scrub, delete()]), Some(3));
    assert_eq!(phrases(&f)[2], "deleted a node".to_string());
}

#[test]
fn feed_that_is_off_says_nothing() {
    let mut f = Feed::new();
    narrate(&mut f, &delete());
    f.set_enabled(false);
    assert!(phrases(&f).is_empty() && f.focus().is_none());
    assert_eq!(narrate(&mut f, &delete()), None);
    assert!(phrases(&f).is_empty());
    f.set_enabled(true);
    assert!(f.enabled());
    assert!(narrate(&mut f, &delete()).is_some());
}

#[test]
fn stored_selection_is_found() {
    let mut s = VertexSelections::new();
    let id = s.store_vertex_selection(List::from_vec(vec![4, 5]));
    assert_eq!(id, 1);
    assert_eq!(s.store_vertex_selection(List::from_vec(vec![9])), 2);
    assert_eq!(s.lookup_vertex_selection(1).unwrap().to_vec(), vec![4, 5]);
    assert!(s.lookup_vertex_selection(3).is_none());
    match s.resolve_vertex_selection_or(Some(1), List::from_vec(vec![7])) {
        Ok(l) => assert_eq!(l.to_vec(), vec![4, 5]),
        Err(_) => panic!("found"),
    }
    match s.resolve_vertex_selection_or(None, List::from_vec(vec![7])) {
        Ok(l) => assert_eq!(l.to_vec(), vec![7]),
        Err(_) => panic!("given"),
    }
    match s.resolve_vertex_selection_or(Some(8), List::empty()) {
        Err(e) => assert_eq!(
            e.message(),
            "no vertex-selection handle 8 (create one with select_vertices_where { store: true })"
        ),
        Ok(_) => panic!("refused"),
    }
}

#[test]
fn console_keeps_the_newest() {
    let mut log = ConsoleLog::new();
    for i in 0..CONSOLE_LOG_CAP + 3 {
        log.record_console_log("warn", &format!("m{i}"));
    }
    assert_eq!(log.notices.len(), CONSOLE_LOG_CAP);
    let last = log.console_logs(2);
    assert_eq!(last.len(), 2);
    assert_eq!(last[0].text, format!("m{}", CONSOLE_LOG_CAP + 1));
    assert_eq!(last[1].text, format!("m{}", CONSOLE_LOG_CAP + 2));
    assert_eq!(last[1].level, "warn");
    assert_eq!(log.console_logs(100_000)[0].text, "m3");
}

#[test]
fn compiles_are_counted() {
    let mut c = CompileCount::new();
    c.compile_end();
    assert_eq!(c.pending, 0);
    c.compile_begin();
    c.compile_begin();
    c.compile_end();
    assert_eq!(c.pending, 1);
}

#[test]
fn window_follows_its_commands() {
    let mut s = Session::new();
    assert_eq!(s.mode, EditorMode::Scene);
    s.apply_view(ViewCommand::SwitchMode(EditorMode::Animation));
    s.apply_view(ViewCommand::SetAssetSelection(Some(AssetId(3))));
    s.apply_view(ViewCommand::SetVertexSelection {
        node: NodeId(1),
        indices: List::from_vec(vec![2]),
    });
    assert!(s.vertex_selection.is_some());
    s.apply_view(ViewCommand::SetVertexSelection { node: NodeId(1), indices: List::empty() });
    assert!(s.vertex_selection.is_none());
    let msaa = s.settings.msaa;
    let grid = s.settings.grid;
    s.apply_view(ViewCommand::SetViewOptions(ViewPatch {
        grid: Some(!grid),
        follow_agent: Some(false),
        ..no_patch()
    }));
    assert_eq!((s.settings.grid, s.settings.msaa, s.follow_agent), (!grid, msaa, false));
    s.apply_view(ViewCommand::SetCameraProjection { perspective: false });
    assert!(s.settings.editor_ortho);
    let near = s.settings.cam_clip_near;
    s.apply_view(ViewCommand::SetCameraClip {
        manual: Some(true),
        near: None,
        far: Some(F64 { bits: 80.0f64.to_bits() }),
    });
    assert!(s.settings.cam_clip_manual);
    assert_eq!(s.settings.cam_clip_near, near);
    assert_eq!(f64::from_bits(s.settings.cam_clip_far.bits), 80.0);
    assert_eq!(s.mode, EditorMode::Animation);
    assert_eq!(s.asset_selection, Some(AssetId(3)));
}

#[test]
fn compile_is_tried_a_few_times() {
    assert_eq!(after_try(0, true), AfterTry::Stop);
    assert_eq!(after_try(0, false), AfterTry::Retry);
    assert_eq!(after_try(FIRST_TRIES - 2, false), AfterTry::Retry);
    assert_eq!(after_try(FIRST_TRIES - 1, false), AfterTry::Stop);
}

#[test]
fn only_the_last_edit_compiles() {
    let mut d = Debounce::new();
    assert_eq!(d.edited(), None, "the first value is no edit");
    let a = d.edited().unwrap();
    let b = d.edited().unwrap();
    assert!(!d.is_due(a));
    assert!(d.is_due(b));
}

#[test]
fn settled_is_two_quiet_looks() {
    let mut s = Settle::new();
    assert!(!s.look(0, 0, 0));
    assert!(!s.look(0, 1, 0), "something came in between");
    assert!(!s.look(0, 0, 0));
    assert!(s.look(0, 0, 0));
    assert!(Settle::goes_on(15, 16));
    assert!(!Settle::goes_on(16, 16));
}

#[test]
fn compiling_is_told() {
    assert_eq!(
        compiling_text("Lava"),
        "Compiling material \u{201c}Lava\u{201d} \u{2014} render pipelines\u{2026}"
    );
}

#[test]
fn failed_fetch_names_the_likely_cause() {
    assert_eq!(import_failure_text("bad header"), "import failed: bad header");
    let told = import_failure_text("TypeError: Failed to fetch");
    assert!(told.starts_with("import failed: TypeError: Failed to fetch\n(likely CORS"));
}

#[test]
fn cached_buffers_are_read_back() {
    let mut c = buffer_cache::BufferCache::new();
    buffer_cache::store(&mut c, AssetId(1), List::from_vec(vec![7, 8]));
    buffer_cache::store(&mut c, AssetId(2), List::from_vec(vec![9]));
    assert!(buffer_cache::contains(&c, AssetId(1)));
    assert_eq!(buffer_cache::get(&c, AssetId(1)).unwrap().to_vec(), vec![7, 8]);
    assert!(buffer_cache::get(&c, AssetId(3)).is_none());
    buffer_cache::clear(&mut c);
    assert!(!buffer_cache::contains(&c, AssetId(2)));
}

#[test]
fn cleared_clusters_are_gone() {
    let mut c: cluster_cache::ClusterCache<u8> = cluster_cache::ClusterCache::new();
    cluster_cache::insert(&mut c, AssetId(1), 5);
    assert_eq!(cluster_cache::get(&c, AssetId(1)).map(|m| *m), Some(5));
    cluster_cache::clear(&mut c);
    assert!(cluster_cache::get(&c, AssetId(1)).is_none());
}

#[test]
fn content_is_addressed_by_its_digest() {
    assert_eq!(
        content_hash(&b"abc".to_vec()),
        "ba7816bf8f01cfea414140de5dae2223b00361a396177a9cb410ff61f20015ad"
    );
    assert_eq!(
        content_hash(&Vec::new()),
        "e3b0c44298fc1c149afbf4c8996fb92427ae41e4649b934ca495991b7852b855"
    );
}

#[test]
fn words_are_written_low_byte_first() {
    assert_eq!(
        words_to_bytes(&List::from_vec(vec![0x0403_0201, 0xff00_0000])),
        vec![1, 2, 3, 4, 0, 0, 0, 0xff]
    );
}

#[test]
fn files_are_named_after_their_url() {
    assert_eq!(file_name_of("https://a.b/c/d.glb?x=/1#y", "model"), "d.glb");
    assert_eq!(file_name_of("https://a.b/c/", "model"), "model");
    assert_eq!(texture_file_name("https://a.b/wood.old.jpeg?w=1", "png"), "wood.old.png");
    assert_eq!(texture_file_name("https://a.b/", "png"), "texture.png");
}

#[test]
fn snapshot_ids_are_distinct() {
    let a = captured_snapshot_id(AssetId(1));
    assert_eq!(a.0, 0x9E37_79B9_7F4A_7C15_F39C_C060_5CED_C834);
    assert_ne!(a, captured_snapshot_id(AssetId(2)));
    assert_eq!(captured_snapshot_id(a), AssetId(1));
}

#[test]
fn parts_of_an_asset_are_told_apart() {
    assert_eq!(pack(AssetId(0), 1, 0), NodeId(1u128 << 120));
    assert_eq!(pack(AssetId(0), 0x0100, 2), NodeId((1u128 << 112) | (2u128 << 104)));
    assert_ne!(pack(AssetId(7), 1, 2), pack(AssetId(7), 2, 1));
}

#[test]
fn ids_are_written_with_hyphens() {
    let e = EditorError::NoNode(NodeId(0x0123_4567_89ab_cdef_0123_4567_89ab_cdef));
    assert_eq!(e.message(), "no node 01234567-89ab-cdef-0123-456789abcdef");
}

#[test]
fn texts_are_made_and_searched() {
    assert_eq!(decimal_text(0), "0");
    assert_eq!(decimal_text(u64::MAX), "18446744073709551615");
    assert_eq!(hex_text(&vec![0, 0x1f, 0xa0]), "001fa0");
    assert!(contains_text("banana", "nan"));
    assert!(!contains_text("banana", "nab"));
    assert!(contains_text("x", ""));
    assert!(any_ink(" \n\u{3000}x"));
    assert!(!any_ink(" \t\u{3000}\n"));
}

#[test]
fn library_commands_light_the_inspector() {
    let c = EditorCommand::Library(LibraryCommand::AddCustomMaterial { id: AssetId(1) });
    assert_eq!(
        describe(&c),
        Some((FocusTarget::Inspector, "created a material".to_string()))
    );
    let c = EditorCommand::Library(LibraryCommand::SetCurrentMaterial { current: None });
    assert!(describe(&c).is_none());
}

#[test]
fn same_words_are_one_asset() {
    let mut assets: Table<AssetEntry> = Table::new();
    let mut cache = buffer_cache::BufferCache::new();
    let words = || List::from_vec(vec![1u32, 2]);
    let a = intern_buffer_asset(&mut assets, &mut cache, words(), AssetId(5));
    assert_eq!(a, AssetId(5));
    assert_eq!(assets.get(5).unwrap().content_hash, content_hash(&vec![1, 0, 0, 0, 2, 0, 0, 0]));
    let b = intern_buffer_asset(&mut assets, &mut cache, words(), AssetId(6));
    assert_eq!(b, AssetId(5));
    assert_eq!(assets.len(), 1);
    let c = intern_buffer_asset(&mut assets, &mut cache, List::from_vec(vec![3]), AssetId(7));
    assert_eq!(c, AssetId(7));
    assert_eq!(buffer_cache::get(&cache, AssetId(5)).unwrap().to_vec(), vec![1, 2]);
}

#[test]
fn begun_activities_have_ids_of_their_own() {
    let mut a = Activities::new();
    let one = begin_activity(&mut a, "one".to_string());
    set_compile_progress(&mut a, 1, 0);
    let two = begin_activity(&mut a, "two".to_string());
    let ids: Vec<u64> = a.activities().iter().map(|e| e.0).collect();
    assert_eq!(ids, vec![COMPILE_ID, 0, 1]);
    end_activity(&mut a, one);
    let ids: Vec<u64> = a.activities().iter().map(|e| e.0).collect();
    assert_eq!(ids, vec![COMPILE_ID, 1]);
    end_activity(&mut a, two);
    assert_eq!(a.activities().len(), 1);
}
