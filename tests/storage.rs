use deferred_escrow::storage::{Serializer, Storage, StorageError};

#[derive(PartialEq, Debug, Clone)]
struct Person {
    color_hex: String,
    fav_num: u64,
}

struct Borsh;
struct Json;
struct Wincode;
struct Refusing;

impl Serializer<Person> for Borsh {
    fn name(&self) -> &'static str {
        "Borsh"
    }
    fn to_bytes(&self, value: &Person) -> Result<Vec<u8>, String> {
        borsh::to_vec(&(value.color_hex.clone(), value.fav_num)).map_err(|e| e.to_string())
    }
    fn from_bytes(&self, bytes: &[u8]) -> Result<Person, String> {
        borsh::from_slice::<(String, u64)>(bytes)
            .map(|(color_hex, fav_num)| Person { color_hex, fav_num })
            .map_err(|e| e.to_string())
    }
}

impl Serializer<Person> for Json {
    fn name(&self) -> &'static str {
        "Serde_Json"
    }
    fn to_bytes(&self, value: &Person) -> Result<Vec<u8>, String> {
        serde_json::to_vec(&(value.color_hex.clone(), value.fav_num)).map_err(|e| e.to_string())
    }
    fn from_bytes(&self, bytes: &[u8]) -> Result<Person, String> {
        serde_json::from_slice::<(String, u64)>(bytes)
            .map(|(color_hex, fav_num)| Person { color_hex, fav_num })
            .map_err(|e| e.to_string())
    }
}

impl Serializer<Person> for Wincode {
    fn name(&self) -> &'static str {
        "WinCode"
    }
    fn to_bytes(&self, value: &Person) -> Result<Vec<u8>, String> {
        wincode::serialize(&(value.color_hex.clone(), value.fav_num)).map_err(|e| e.to_string())
    }
    fn from_bytes(&self, bytes: &[u8]) -> Result<Person, String> {
        wincode::deserialize::<(String, u64)>(bytes)
            .map(|(color_hex, fav_num)| Person { color_hex, fav_num })
            .map_err(|e| e.to_string())
    }
}

impl Serializer<Person> for Refusing {
    fn name(&self) -> &'static str {
        "Refusing"
    }
    fn to_bytes(&self, _value: &Person) -> Result<Vec<u8>, String> {
        Err("refused".to_string())
    }
    fn from_bytes(&self, _bytes: &[u8]) -> Result<Person, String> {
        Err("refused".to_string())
    }
}

fn person() -> Person {
    Person { color_hex: "ffffff/000000".to_string(), fav_num: 6 }
}

#[test]
fn for_borsh() {
    let per = person();
    let mut st = Storage::new(Borsh);
    assert_eq!(st.has_data(), false);
    st.save(&per).unwrap();
    assert_eq!(st.load().unwrap(), per)
}

#[test]
fn for_serde() {
    let per = person();
    let mut st = Storage::new(Json);
    assert_eq!(st.has_data(), false);
    st.save(&per).unwrap();
    assert_eq!(st.load().unwrap(), per)
}

#[test]
fn for_wincode() {
    let per = person();
    let mut st = Storage::new(Wincode);
    assert_eq!(st.has_data(), false);
    st.save(&per).unwrap();
    assert_eq!(st.load().unwrap(), per)
}

#[test]
fn load_before_save_has_no_data() {
    let st: Storage<Person, Borsh> = Storage::new(Borsh);
    assert!(matches!(st.load(), Err(StorageError::NoData)));
}

#[test]
fn save_marks_data_present() {
    let mut st = Storage::new(Json);
    st.save(&person()).unwrap();
    assert!(st.has_data());
}

#[test]
fn refused_encoding_keeps_store_empty() {
    let mut st = Storage::new(Refusing);
    assert!(matches!(st.save(&person()), Err(StorageError::Codec(_))));
    assert!(!st.has_data());
}

#[test]
fn second_save_replaces_first() {
    let mut st = Storage::new(Wincode);
    st.save(&person()).unwrap();
    let other = Person { color_hex: "000000".to_string(), fav_num: 702496809348 };
    st.save(&other).unwrap();
    assert_eq!(st.load().unwrap(), other);
}
