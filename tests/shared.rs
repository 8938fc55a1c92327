use std::collections::HashSet;
use std::sync::{Arc, Mutex};

use mail_scheduler::{Database, Message};

#[test]
fn interleaved_creates_from_many_callers_keep_every_record() {
    let db = Arc::new(Mutex::new(Database::new()));
    let callers: Vec<Arc<Mutex<Database>>> = (0..4).map(|_| Arc::clone(&db)).collect();
    let mut returned = HashSet::new();
    for k in 0..25 {
        for (worker, caller) in callers.iter().enumerate() {
            let draft = Message {
                id: None,
                email: format!("w{}k{}@x.com", worker, k),
                message_body: None,
                created_at: None,
                send_at: None,
                send: None,
            };
            let created = caller.lock().unwrap().create_message(draft).unwrap();
            returned.insert(created.id.unwrap());
        }
    }
    assert_eq!(returned.len(), 100);
    let all = db.lock().unwrap().get_messages();
    assert_eq!(all.len(), 100);
    let stored: HashSet<String> = all.into_iter().map(|m| m.id.unwrap()).collect();
    assert_eq!(stored, returned);
}
