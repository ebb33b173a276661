use std::collections::hash_map::DefaultHasher;
use std::collections::HashMap;
use std::hash::Hash;
use std::hash::Hasher;

use pdf_viewer::scalar::Scalar;
use pdf_viewer::vibrancy::regions_for;
use pdf_viewer::vibrancy::sync;
use pdf_viewer::vibrancy::tag_for;
use pdf_viewer::vibrancy::Extent;
use pdf_viewer::vibrancy::Material;
use pdf_viewer::vibrancy::MaterialState;
use pdf_viewer::vibrancy::ViewStep;

fn measure(extent: Extent, width: f64, height: f64) -> f64 {
    match extent {
        Extent::Nothing => 0.0,
        Extent::Sidebar => 282.0,
        Extent::WindowWidth => width,
        Extent::BesideSidebar => width - 282.0,
        Extent::WindowHeight => height,
    }
}

#[test]
fn regions_have_the_sizes_that_arithmetic_gives() {
    for w in [0.0f32, 0.5, 100.25, 281.99997, 282.0, 282.00003, 900.0, 3840.75, f32::NAN, -5.0] {
        let width = w as f64;
        let height = 600.0;
        let regions = regions_for(Scalar { bits: w.to_bits() });
        let sidebar_width = 282.0f64.min(width);
        let content_width = (width - sidebar_width).max(0.0);
        assert_eq!(regions.len(), 2);
        assert_eq!(regions[0].name, "sidebar");
        assert_eq!(regions[0].material, Material::Sidebar);
        assert_eq!(regions[0].state, MaterialState::FollowsWindowActiveState);
        assert_eq!(measure(regions[0].x, width, height), 0.0);
        assert_eq!(measure(regions[0].y, width, height), 0.0);
        assert_eq!(measure(regions[0].width, width, height), sidebar_width);
        assert_eq!(measure(regions[0].height, width, height), height);
        assert_eq!(regions[1].name, "content");
        assert_eq!(regions[1].material, Material::HudWindow);
        assert_eq!(regions[1].state, MaterialState::FollowsWindowActiveState);
        assert_eq!(measure(regions[1].x, width, height), sidebar_width);
        assert_eq!(measure(regions[1].y, width, height), 0.0);
        assert_eq!(measure(regions[1].width, width, height), content_width);
        assert_eq!(measure(regions[1].height, width, height), height);
    }
}

#[test]
fn tag_is_the_hash_of_the_name() {
    for name in ["sidebar", "content", "", "\u{e9}t\u{e9}"] {
        let mut hasher = DefaultHasher::new();
        name.hash(&mut hasher);
        assert_eq!(tag_for(name), hasher.finish() as isize);
        assert_eq!(tag_for(name), tag_for(name));
    }
    assert_ne!(tag_for("sidebar"), tag_for("content"));
}

#[test]
fn regions_are_placed_by_their_tags() {
    let regions = regions_for(Scalar { bits: 900.0f32.to_bits() });
    let placements = sync(&regions);
    assert_eq!(placements.len(), 2);
    assert_eq!(placements[0].tag, tag_for("sidebar"));
    assert_eq!(placements[0].material, Material::Sidebar);
    assert_eq!(placements[0].width, Extent::Sidebar);
    assert_eq!(placements[1].tag, tag_for("content"));
    assert_eq!(placements[1].material, Material::HudWindow);
    assert_eq!(placements[1].x, Extent::Sidebar);
    assert_eq!(placements[1].width, Extent::BesideSidebar);
    assert_eq!(sync(&regions), placements);
    assert!(sync(&Vec::new()).is_empty());
}

#[test]
fn only_missing_views_are_made() {
    let placement = sync(&regions_for(Scalar { bits: 0 }))[1];
    let styling = vec![
        ViewStep::SetFrame,
        ViewStep::SetMaterial(Material::HudWindow),
        ViewStep::SetState(MaterialState::FollowsWindowActiveState),
    ];
    assert_eq!(placement.place(true), styling);
    let mut making = vec![
        ViewStep::Create,
        ViewStep::BlendBehindWindow,
        ViewStep::InsertBelowContent,
    ];
    making.extend(styling);
    assert_eq!(placement.place(false), making);
}

/// Does the steps of the placements on views known by their tags; gives how many views were made.
fn perform(views: &mut HashMap<isize, Vec<String>>, width: f32) -> usize {
    let mut made = 0;
    for placement in sync(&regions_for(Scalar { bits: width.to_bits() })) {
        for step in placement.place(views.contains_key(&placement.tag)) {
            let frame =
                format!("{:?}", (placement.x, placement.y, placement.width, placement.height));
            match step {
                ViewStep::Create => {
                    made += 1;
                    let view = vec![frame, String::new(), String::new(), String::new()];
                    assert!(views.insert(placement.tag, view).is_none());
                }
                ViewStep::BlendBehindWindow | ViewStep::InsertBelowContent => {
                    views.get_mut(&placement.tag).unwrap()[1] += "placed ";
                }
                ViewStep::SetFrame => views.get_mut(&placement.tag).unwrap()[0] = frame,
                ViewStep::SetMaterial(material) => {
                    views.get_mut(&placement.tag).unwrap()[2] = format!("{:?}", material);
                }
                ViewStep::SetState(state) => {
                    views.get_mut(&placement.tag).unwrap()[3] = format!("{:?}", state);
                }
            }
        }
    }
    made
}

#[test]
fn syncing_again_changes_nothing() {
    let mut views = HashMap::new();
    assert_eq!(perform(&mut views, 900.0), 2);
    let once = views.clone();
    assert_eq!(perform(&mut views, 900.0), 0);
    assert_eq!(views, once);
    assert_eq!(perform(&mut views, 100.0), 0);
    assert_eq!(views.len(), 2);
    assert_ne!(views, once);
    assert_eq!(views[&tag_for("content")][1], "placed placed ");
}
