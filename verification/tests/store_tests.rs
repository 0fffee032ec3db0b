use std::cell::RefCell;

use substream_adapter::{Store, TimeStore};

/// A stand-in for a host-managed store handle: it records every write.
struct Notebook {
    written: RefCell<Vec<(String, String)>>,
}

/// A stand-in for a host-managed expiring store handle.
struct TimedNotebook {
    written: RefCell<Vec<(String, String)>>,
    cleared: RefCell<Vec<String>>,
}

struct KeyValue {
    key: String,
    value: String,
}

impl Store<Notebook> for KeyValue {
    fn store(&self, store: &Notebook) {
        store.written.borrow_mut().push((self.key.clone(), self.value.clone()));
    }
}

struct TimedKeyValue {
    key: String,
    value: String,
    home: TimedNotebook,
}

impl TimeStore<()> for TimedKeyValue {
    fn store(&self, _store: &()) {
        self.home.written.borrow_mut().push((self.key.clone(), self.value.clone()));
    }

    fn clear(&self) {
        self.home.cleared.borrow_mut().push(self.key.clone());
    }
}

#[test]
fn store_writes_through_the_handle() {
    let handle = Notebook { written: RefCell::new(Vec::new()) };
    let kv = KeyValue { key: "height".to_string(), value: "42".to_string() };
    kv.store(&handle);
    kv.store(&handle);
    let written = handle.written.borrow();
    assert_eq!(written.len(), 2);
    assert_eq!(written[0], ("height".to_string(), "42".to_string()));
    assert_eq!(written[1], ("height".to_string(), "42".to_string()));
}

#[test]
fn time_store_writes_and_clears() {
    let kv = TimedKeyValue {
        key: "rate".to_string(),
        value: "7".to_string(),
        home: TimedNotebook { written: RefCell::new(Vec::new()), cleared: RefCell::new(Vec::new()) },
    };
    kv.store(&());
    kv.clear();
    assert_eq!(kv.home.written.borrow().len(), 1);
    assert_eq!(kv.home.written.borrow()[0], ("rate".to_string(), "7".to_string()));
    assert_eq!(kv.home.cleared.borrow().as_slice(), &["rate".to_string()]);
}
