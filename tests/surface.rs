use layers::geometry::Size;
use layers::surface::{
    surface_len, IOSurfaceNativeSurface, NativeCompositingGraphicsContext, SurfaceError, SurfaceRegistry, BYTES_PER_PIXEL,
};
use layers::texture::Texture;

#[test]
fn created_surface_gets_fresh_ids_and_leaks_by_default() {
    let mut registry = SurfaceRegistry::new();
    let a = IOSurfaceNativeSurface::new(&mut registry, Size::new(64, 32)).unwrap();
    let b = IOSurfaceNativeSurface::new(&mut registry, Size::new(8, 8)).unwrap();
    assert_eq!(a.get_id(), 1);
    assert_eq!(b.get_id(), 2);
    assert!(a.will_leak());
    assert!(registry.contains(1));
    assert!(registry.contains(2));
    assert!(!registry.contains(3));
}

#[test]
fn destroyed_surface_cannot_be_bound() {
    let mut registry = SurfaceRegistry::new();
    let context = NativeCompositingGraphicsContext::new();
    let mut surface = IOSurfaceNativeSurface::new(&mut registry, Size::new(16, 16)).unwrap();
    let id = surface.get_id();
    assert_eq!(surface.bind_to_texture(&registry, &context, &Texture::zero(), Size::new(16, 16)), Ok(()));
    assert_eq!(
        surface.bind_to_texture(&registry, &context, &Texture::zero(), Size::new(16, 8)),
        Err(SurfaceError::WrongSize)
    );
    surface.destroy(&mut registry);
    assert_eq!(surface.get_id(), 0);
    assert!(!surface.will_leak());
    assert!(!registry.contains(id));
    assert_eq!(
        surface.bind_to_texture(&registry, &context, &Texture::zero(), Size::new(16, 16)),
        Err(SurfaceError::NotFound)
    );
    let other = IOSurfaceNativeSurface::from_existing_id(id);
    assert_eq!(
        other.bind_to_texture(&registry, &context, &Texture::zero(), Size::new(16, 16)),
        Err(SurfaceError::NotFound)
    );
    assert_eq!(other.upload(&mut registry, &[1, 2, 3]), Err(SurfaceError::NotFound));
}

#[test]
fn handle_from_existing_id_sees_same_pixels() {
    let mut registry = SurfaceRegistry::new();
    let created = IOSurfaceNativeSurface::new(&mut registry, Size::new(1, 2)).unwrap();
    let bytes = vec![10u8, 20, 30, 40, 50, 60, 70, 80];
    assert_eq!(created.upload(&mut registry, &bytes), Ok(()));
    let received = IOSurfaceNativeSurface::from_existing_id(created.get_id());
    assert!(received.will_leak());
    assert_eq!(received.read_pixels(&registry), Ok(bytes.clone()));
    assert_eq!(created.read_pixels(&registry), received.read_pixels(&registry));
}

#[test]
fn upload_then_read_back_round_trips() {
    let mut registry = SurfaceRegistry::new();
    let surface = IOSurfaceNativeSurface::new(&mut registry, Size::new(2, 1)).unwrap();
    assert_eq!(surface.read_pixels(&registry), Ok(vec![]));
    let bytes = vec![0u8, 255, 7, 128, 1, 2, 3, 4];
    surface.upload(&mut registry, &bytes).unwrap();
    assert_eq!(surface.read_pixels(&registry), Ok(bytes));
    assert_eq!(surface.upload(&mut registry, &[9]), Err(SurfaceError::WrongLength));
    assert_eq!(surface.read_pixels(&registry), Ok(vec![0u8, 255, 7, 128, 1, 2, 3, 4]));
}

#[test]
fn surface_layout_is_four_bytes_per_pixel() {
    assert_eq!(BYTES_PER_PIXEL, 4);
    assert_eq!(surface_len(Size::new(3, 5)), 60);
    assert_eq!(surface_len(Size::new(0, 5)), 0);
    let mut registry = SurfaceRegistry::new();
    let surface = IOSurfaceNativeSurface::new(&mut registry, Size::new(3, 5)).unwrap();
    assert_eq!(surface.upload(&mut registry, &[1u8; 59]), Err(SurfaceError::WrongLength));
    assert_eq!(surface.upload(&mut registry, &[1u8; 60]), Ok(()));
}

#[test]
fn leak_flag_decides_whether_dropping_is_in_order() {
    let mut registry = SurfaceRegistry::new();
    let mut surface = IOSurfaceNativeSurface::new(&mut registry, Size::new(4, 4)).unwrap();
    assert!(surface.may_drop_without_destroy());
    surface.mark_wont_leak();
    assert!(!surface.will_leak());
    assert!(!surface.may_drop_without_destroy());
    surface.mark_will_leak();
    assert!(surface.will_leak());
    surface.mark_wont_leak();
    surface.destroy(&mut registry);
    assert!(surface.may_drop_without_destroy());
}
