use gigantomachia::asset::fbx::{CornerIndex, WeldError};

#[test]
fn corners_sharing_vertex_and_material_are_welded() {
    let mut welded = CornerIndex::new();
    assert_eq!(welded.find((0, 0)), None);
    assert_eq!(welded.add((0, 0)), Ok(0));
    assert_eq!(welded.add((1, 0)), Ok(1));
    assert_eq!(welded.find((0, 0)), Some(0));
    assert_eq!(welded.find((1, 0)), Some(1));
    // The same corner under another material is a color seam: a separate vertex.
    assert_eq!(welded.find((0, 1)), None);
    assert_eq!(welded.add((0, 1)), Ok(2));
    assert_eq!(welded.find((0, 1)), Some(2));
    assert_eq!(welded.find((u32::MAX, u32::MAX)), None);
    assert_eq!(welded.add((u32::MAX, u32::MAX)), Ok(3));
    assert_eq!(welded.len(), 4);
    let _ = WeldError::TooManyVertices;
}
