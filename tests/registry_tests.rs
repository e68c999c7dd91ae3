use facial_recognition::monitor::RecognitionResponse;
use facial_recognition::photo::CustomerPhoto;
use facial_recognition::registry::{FaceDatabase, FaceRecord};

fn now_micros() -> i64 {
    chrono::Utc::now().timestamp_micros()
}

#[test]
fn test_face_record_creation() {
    let before = now_micros();
    let record = FaceRecord::new("John Doe".to_string(), "database/john.jpg".to_string());
    let after = now_micros();
    assert!(!record.id.is_empty());
    assert_eq!(record.id.len(), 36);
    assert_eq!(record.name, "John Doe");
    assert_eq!(record.photo_path, "database/john.jpg");
    assert!(record.created_at >= before);
    assert!(record.created_at <= after);
    assert!(record.created_at > now_micros() - 60 * 1_000_000);
}

#[test]
fn test_face_database_operations() {
    let mut face_db = FaceDatabase::new(None);
    assert_eq!(face_db.records.len(), 0);

    let record = FaceRecord::new("Jane Doe".to_string(), "database/jane.jpg".to_string());
    face_db.add_record(record);

    assert_eq!(face_db.records.len(), 1);
    assert_eq!(face_db.records[0].name, "Jane Doe");

    let authorized_faces = face_db.get_authorized_faces();
    assert_eq!(authorized_faces.len(), 1);
    assert_eq!(authorized_faces[0].name, "Jane Doe");
}

#[test]
fn test_face_database_multiple_records() {
    let mut face_db = FaceDatabase::new(None);
    let records = vec![
        FaceRecord::new("Person 1".to_string(), "database/person1.jpg".to_string()),
        FaceRecord::new("Person 2".to_string(), "database/person2.jpg".to_string()),
        FaceRecord::new("Person 3".to_string(), "database/person3.jpg".to_string()),
    ];
    let mut ids = std::collections::HashSet::new();
    for record in records {
        assert!(ids.insert(record.id.clone()));
        face_db.add_record(record);
    }
    assert_eq!(face_db.records.len(), 3);
    let names: Vec<String> = face_db.records.iter().map(|r| r.name.clone()).collect();
    assert!(names.contains(&"Person 1".to_string()));
    assert!(names.contains(&"Person 2".to_string()));
    assert!(names.contains(&"Person 3".to_string()));
}

#[test]
fn add_then_load_round_trips() {
    let mut face_db = FaceDatabase::new(None);
    let before = now_micros();
    face_db.add_record(FaceRecord::new("Ann".to_string(), "database/ann.jpg".to_string()));
    let after = now_micros();
    // what was persisted is the whole list; loading it gives it back
    let persisted = face_db.get_authorized_faces().clone();
    let loaded = FaceDatabase::new(Some(persisted));
    assert_eq!(loaded.records.len(), 1);
    let r = &loaded.records[0];
    assert_eq!(r.name, "Ann");
    assert_eq!(r.photo_path, "database/ann.jpg");
    assert!(!r.id.is_empty());
    assert!(before <= r.created_at && r.created_at <= after);
}

#[test]
fn remove_by_id() {
    let mut face_db = FaceDatabase::new(None);
    face_db.add_record(FaceRecord::new("A".to_string(), "a.jpg".to_string()));
    face_db.add_record(FaceRecord::new("B".to_string(), "b.jpg".to_string()));
    let id_a = face_db.records[0].id.clone();
    let id_b = face_db.records[1].id.clone();

    assert!(!face_db.remove_record(&"no-such-id".to_string()));
    assert_eq!(face_db.records.len(), 2);
    assert_eq!(face_db.records[0].id, id_a);
    assert_eq!(face_db.records[1].id, id_b);

    assert!(face_db.remove_record(&id_a));
    assert_eq!(face_db.records.len(), 1);
    assert_eq!(face_db.records[0].id, id_b);

    assert!(!face_db.remove_record(&id_a));
    assert_eq!(face_db.records.len(), 1);
}

#[test]
fn customer_photo_keeps_name_and_bytes() {
    let before = now_micros();
    let p = CustomerPhoto::new("Zoe".to_string(), vec![1, 2, 3]);
    assert_eq!(p.customer_name, "Zoe");
    assert_eq!(p.photo_data, vec![1, 2, 3]);
    assert!(p.created_at >= before && p.created_at <= now_micros());
}

#[test]
fn test_recognition_response_structure() {
    let response = RecognitionResponse { name: Some("Test User".to_string()), recognized: true };
    assert_eq!(response.name, Some("Test User".to_string()));
    assert_eq!(response.recognized, true);
}
