use knoten_core::registry::{
    pack_rgb, registry_create_counter, registry_create_window, registry_dump, registry_elapsed_ms,
    registry_file_create, registry_file_write, registry_fill_color, registry_free, registry_get_value,
    registry_gpu_init, registry_increment, registry_now, registry_release, registry_retain,
    registry_voxel_add_block, registry_voxel_render_frame, registry_voxel_world_create,
    registry_window_close, registry_window_update, Diagnostic, Registry,
};

#[test]
fn counter_scenario_reads_three_then_not_found() {
    let mut reg = Registry::new();
    let h = registry_create_counter(&mut reg);
    assert_eq!(h, 1);
    registry_increment(&mut reg, h);
    registry_increment(&mut reg, h);
    registry_increment(&mut reg, h);
    assert_eq!(registry_get_value(&mut reg, h), 3);
    assert!(registry_release(&mut reg, h));
    assert_eq!(registry_get_value(&mut reg, h), -1);
    assert_eq!(reg.diagnostics.last(), Some(&Diagnostic::NotFound(h)));
}

#[test]
fn unavailable_backends_insert_nothing() {
    let mut reg = Registry::new();
    let c = registry_create_counter(&mut reg);
    assert_eq!(registry_create_window(&mut reg, 80, 60, false), -1);
    assert_eq!(registry_voxel_world_create(&mut reg, 80, 60, false), -1);
    assert_eq!(registry_gpu_init(&mut reg, false), -1);
    assert_eq!(reg.next_id, 2);
    assert_eq!(registry_file_create(&mut reg, false), -1);
    assert_eq!(registry_dump(&reg), 1);
    assert_eq!(reg.next_id, 3);
    assert_eq!(registry_create_counter(&mut reg), c + 2);
    assert_eq!(reg.diagnostics.len(), 4);
}

#[test]
fn retains_and_releases_balance() {
    let mut reg = Registry::new();
    let h = registry_create_counter(&mut reg);
    for _ in 0..3 {
        registry_retain(&mut reg, h);
    }
    for _ in 0..3 {
        assert!(!registry_release(&mut reg, h));
    }
    assert_eq!(registry_dump(&reg), 1);
    assert_eq!(reg.table.get(&(h as u64)).map(|e| e.ref_count), Some(1));
    assert!(registry_release(&mut reg, h));
    assert_eq!(registry_dump(&reg), 0);
    assert!(!registry_release(&mut reg, h));
    assert_eq!(registry_dump(&reg), 0);
    assert_eq!(reg.diagnostics, vec![Diagnostic::NotFound(h)]);
}

#[test]
fn free_removes_whatever_the_count_and_logs_double_free() {
    let mut reg = Registry::new();
    let h = registry_create_counter(&mut reg);
    registry_retain(&mut reg, h);
    assert!(registry_free(&mut reg, h));
    assert!(!registry_free(&mut reg, h));
    assert_eq!(reg.diagnostics, vec![Diagnostic::DoubleFree(h)]);
}

#[test]
fn handles_are_monotonic_and_shared_between_kinds() {
    let mut reg = Registry::new();
    let a = registry_create_counter(&mut reg);
    let t = registry_now(&mut reg);
    let w = registry_create_window(&mut reg, 4, 3, true);
    let f = registry_file_create(&mut reg, true);
    let g = registry_gpu_init(&mut reg, true);
    let v = registry_voxel_world_create(&mut reg, 4, 3, true);
    assert_eq!((a, t, w, f, g, v), (1, 2, 3, 4, 5, 6));
    registry_free(&mut reg, a);
    assert_eq!(registry_create_counter(&mut reg), 7);
    assert_eq!(registry_dump(&reg), 6);
}

#[test]
fn wrong_kind_access_gives_sentinels() {
    let mut reg = Registry::new();
    let t = registry_now(&mut reg);
    let c = registry_create_counter(&mut reg);
    assert_eq!(registry_get_value(&mut reg, t), -1);
    assert_eq!(registry_elapsed_ms(&mut reg, c), -1);
    assert!(registry_elapsed_ms(&mut reg, t) >= 0);
    assert!(!registry_file_write(&mut reg, c));
    assert!(registry_window_update(&reg, c).is_none());
    assert_eq!(reg.diagnostics, vec![
        Diagnostic::WrongKind(t),
        Diagnostic::WrongKind(c),
        Diagnostic::WrongKind(c),
    ]);
}

#[test]
fn windows_start_blank_and_take_fill_colours() {
    let mut reg = Registry::new();
    let w = registry_create_window(&mut reg, 4, 3, true);
    {
        let ws = registry_window_update(&reg, w).unwrap();
        assert_eq!((ws.width, ws.height), (4, 3));
        assert_eq!(ws.buffer, vec![0x333333u32; 12]);
    }
    registry_fill_color(&mut reg, w, 300, 128, -5);
    let ws = registry_window_update(&reg, w).unwrap();
    assert_eq!(ws.buffer, vec![0xff8000u32; 12]);
    assert!(registry_window_close(&mut reg, w));
    assert!(registry_window_update(&reg, w).is_none());
    assert_eq!(registry_create_window(&mut reg, -1, 3, true), -1);
}

#[test]
fn colour_channels_are_clamped() {
    assert_eq!(pack_rgb(0, 0, 0), 0);
    assert_eq!(pack_rgb(255, 255, 255), 0xffffff);
    assert_eq!(pack_rgb(-1, 256, 16), 0x00ff10);
}

#[test]
fn files_accept_writes_through_their_handle() {
    let mut reg = Registry::new();
    let f = registry_file_create(&mut reg, true);
    assert!(registry_file_write(&mut reg, f));
    assert!(!registry_file_write(&mut reg, 99));
    assert_eq!(reg.diagnostics, vec![Diagnostic::NotFound(99)]);
}

#[test]
fn voxel_scene_collects_blocks_and_renders() {
    let mut reg = Registry::new();
    let v = registry_voxel_world_create(&mut reg, 64, 48, true);
    registry_voxel_add_block(&mut reg, v, 0, 0, 0);
    registry_voxel_add_block(&mut reg, v, 1, 0, 0);
    registry_voxel_add_block(&mut reg, v, 4294967297, 0, 0);
    let scene = registry_voxel_render_frame(&mut reg, v).unwrap();
    assert_eq!(scene.voxels, vec![(0, 0, 0), (1, 0, 0), (1, 0, 0)]);
    assert_eq!(scene.buffer.len(), 64 * 48);
    assert!(scene.buffer.iter().any(|&p| p == 0x5b9bd5));
    assert!(scene.buffer.iter().all(|&p| [0x0d1b2a, 0x5b9bd5, 0x2e6ea8, 0x1a4a7c].contains(&p)));
    assert!(registry_voxel_render_frame(&mut reg, 42).is_none());
}

#[test]
fn negative_handles_name_nothing() {
    let mut reg = Registry::new();
    registry_retain(&mut reg, -1);
    assert_eq!(registry_get_value(&mut reg, 0), -1);
    assert_eq!(reg.diagnostics, vec![Diagnostic::NotFound(-1), Diagnostic::NotFound(0)]);
}
