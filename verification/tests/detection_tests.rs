use headshot::detection::DetectionResult;
use headshot::geometry::Rect;

#[test]
fn detection_keeps_the_faces_in_order() {
    let faces = vec![Rect::new(5, 5, 10, 10), Rect::new(0, 0, 1, 1), Rect::new(90, 40, 10, 10)];
    let found = DetectionResult::new(100, 50, faces.clone()).unwrap();
    assert_eq!(found.cols(), 100);
    assert_eq!(found.rows(), 50);
    assert_eq!(found.face_count(), 3);
    assert_eq!(found.faces(), &faces);
}

#[test]
fn detection_without_faces_is_accepted() {
    let found = DetectionResult::new(0, 0, vec![]).unwrap();
    assert_eq!(found.face_count(), 0);
}

#[test]
fn detection_reaching_beyond_the_image_is_refused() {
    assert!(DetectionResult::new(100, 50, vec![Rect::new(91, 0, 10, 10)]).is_none());
    assert!(DetectionResult::new(100, 50, vec![Rect::new(0, 41, 10, 10)]).is_none());
    assert!(DetectionResult::new(100, 50, vec![Rect::new(0, 0, 10, 10), Rect::new(-1, 0, 2, 2)])
        .is_none());
    assert!(DetectionResult::new(100, 50, vec![Rect::new(10, 10, -2, 2)]).is_none());
    assert!(DetectionResult::new(-1, 50, vec![Rect::new(0, 0, 0, 0)]).is_none());
}

#[test]
fn detection_touching_the_border_is_accepted() {
    assert!(DetectionResult::new(100, 50, vec![Rect::new(90, 40, 10, 10)]).is_some());
    assert!(DetectionResult::new(100, 50, vec![Rect::new(100, 50, 0, 0)]).is_some());
}
