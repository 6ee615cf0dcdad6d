use moodb::client::{MooClient, Storage};
use moodb::persist::SaveStep;
use moodb::table::{MooTable, TableSource};
use moodb::text::{decimal, lists, owned};
use moodb::{MooErrorCodes, MooRecord};
use std::io::{Cursor, Seek, SeekFrom, Write};

fn record(key: &str, value: &str) -> MooRecord<String> {
    MooRecord { key: key.to_string(), value: value.to_string() }
}

/// The JSON codec for tables of strings.
fn encode(records: &Vec<MooRecord<String>>) -> Option<Vec<u8>> {
    let mut items = Vec::new();
    for record in records {
        let mut object = serde_json::Map::new();
        object.insert("key".to_string(), serde_json::Value::String(record.key.clone()));
        object.insert("value".to_string(), serde_json::Value::String(record.value.clone()));
        items.push(serde_json::Value::Object(object));
    }
    serde_json::to_vec(&serde_json::Value::Array(items)).ok()
}

fn decode(bytes: &[u8]) -> Option<Vec<MooRecord<String>>> {
    let value: serde_json::Value = serde_json::from_slice(bytes).ok()?;
    let mut records = Vec::new();
    for item in value.as_array()? {
        let key = item.get("key")?.as_str()?.to_string();
        let value = item.get("value")?.as_str()?.to_string();
        records.push(MooRecord { key, value });
    }
    Some(records)
}

/// The JSON codec for tables of numbers.
fn encode_numbers(records: &Vec<MooRecord<u64>>) -> Option<Vec<u8>> {
    let mut items = Vec::new();
    for record in records {
        let mut object = serde_json::Map::new();
        object.insert("key".to_string(), serde_json::Value::String(record.key.clone()));
        object.insert("value".to_string(), serde_json::Value::Number(record.value.into()));
        items.push(serde_json::Value::Object(object));
    }
    serde_json::to_vec(&serde_json::Value::Array(items)).ok()
}

fn decode_numbers(bytes: &[u8]) -> Option<Vec<MooRecord<u64>>> {
    let value: serde_json::Value = serde_json::from_slice(bytes).ok()?;
    let mut records = Vec::new();
    for item in value.as_array()? {
        let key = item.get("key")?.as_str()?.to_string();
        let value = item.get("value")?.as_u64()?;
        records.push(MooRecord { key, value });
    }
    Some(records)
}

/// A file held in memory, and the work that the store leaves to its caller.
struct Disk {
    file: Cursor<Vec<u8>>,
}

impl Disk {
    fn new() -> Disk {
        Disk { file: Cursor::new(Vec::new()) }
    }

    fn bytes(&self) -> Vec<u8> {
        self.file.get_ref().clone()
    }

    fn text(&self) -> String {
        String::from_utf8(self.bytes()).unwrap()
    }

    fn write(&mut self, mut rewrite: moodb::persist::Rewrite) {
        while let Some(step) = rewrite.pending() {
            let done = match step {
                SaveStep::Lock => true,
                SaveStep::Seek => self.file.seek(SeekFrom::Start(rewrite.offset())).is_ok(),
                SaveStep::Write => self.file.write_all(rewrite.content()).is_ok(),
                SaveStep::Truncate => {
                    self.file.get_mut().resize(rewrite.length(), 0);
                    true
                }
                SaveStep::Flush => self.file.flush().is_ok(),
            };
            rewrite.advance(done).unwrap();
        }
        assert!(rewrite.is_complete());
    }

    /// Rewrites the file where the table has a change to save.
    fn save(&mut self, table: &mut MooTable<String>) {
        if table.unsaved {
            let rewrite = table.save(encode(&table.records)).unwrap();
            self.write(rewrite);
        }
        assert!(!table.unsaved);
    }

    fn save_numbers(&mut self, table: &mut MooTable<u64>) {
        if table.unsaved {
            let rewrite = table.save(encode_numbers(&table.records)).unwrap();
            self.write(rewrite);
        }
        assert!(!table.unsaved);
    }

    fn open(&self, name: &str) -> MooClient<String> {
        let contents = self.bytes();
        let decoded = decode(&contents);
        let storage = Storage { directory: true, log: true, table: TableSource::Read { contents, decoded } };
        MooClient::new(name, None, None, storage).unwrap()
    }

    fn open_numbers(&self, name: &str) -> MooClient<u64> {
        let contents = self.bytes();
        let decoded = decode_numbers(&contents);
        let storage = Storage { directory: true, log: true, table: TableSource::Read { contents, decoded } };
        MooClient::new(name, None, None, storage).unwrap()
    }
}

fn two_records(disk: &mut Disk) -> MooClient<String> {
    let mut client = disk.open("t1");
    client.reset_table().unwrap();
    disk.save(&mut client.table);
    client.get_table().unwrap().insert("a", "A".to_string()).unwrap();
    disk.save(&mut client.table);
    client.get_table().unwrap().insert("b", "B".to_string()).unwrap();
    disk.save(&mut client.table);
    client
}

#[test]
fn insert_get_round_trip() {
    let mut disk = Disk::new();
    let mut client = two_records(&mut disk);
    let table = client.get_table().unwrap();
    assert_eq!(table.get("a").unwrap(), "A");
    assert_eq!(table.get("b").unwrap(), "B");
    assert_eq!(table.get("c").unwrap_err().code, MooErrorCodes::NotFound);
    assert_eq!(disk.text(), "[{\"key\":\"a\",\"value\":\"A\"},{\"key\":\"b\",\"value\":\"B\"}]");
}

#[test]
fn update_swaps_values() {
    let mut disk = Disk::new();
    let mut client = two_records(&mut disk);
    let table = client.get_table().unwrap();
    table.update("a", "B".to_string()).unwrap();
    disk.save(table);
    table.update("b", "A".to_string()).unwrap();
    disk.save(table);
    assert_eq!(table.get("a").unwrap(), "B");
    assert_eq!(table.get("b").unwrap(), "A");
    assert_eq!(disk.text(), "[{\"key\":\"a\",\"value\":\"B\"},{\"key\":\"b\",\"value\":\"A\"}]");
}

#[test]
fn delete_compacts() {
    let mut disk = Disk::new();
    let mut client = two_records(&mut disk);
    let table = client.get_table().unwrap();
    table.delete("a").unwrap();
    disk.save(table);
    assert_eq!(table.get_all().unwrap(), vec![record("b", "B")]);
    assert_eq!(disk.text(), "[{\"key\":\"b\",\"value\":\"B\"}]");
    let mut again = disk.open("t1");
    assert_eq!(again.get_table().unwrap().get_all().unwrap(), vec![record("b", "B")]);
}

#[test]
fn bulk_insert_rejects_on_collision() {
    let disk = Disk::new();
    let mut client = disk.open("fresh");
    let table = client.get_table().unwrap();
    table.insert("x", "1".to_string()).unwrap();
    let error = table.insert_many(vec![record("y", "2"), record("x", "3")]).unwrap_err();
    assert_eq!(error.code, MooErrorCodes::Warn);
    assert_eq!(table.get_all().unwrap(), vec![record("x", "1")]);
}

#[test]
fn persistence_across_reopen() {
    let mut disk = Disk::new();
    {
        let mut client = disk.open_numbers("t2");
        client.reset_table().unwrap();
        disk.save_numbers(&mut client.table);
        for i in 0..100u64 {
            client.get_table().unwrap().insert(&format!("user{}", i), i).unwrap();
            disk.save_numbers(&mut client.table);
        }
    }
    let mut client = disk.open_numbers("t2");
    let table = client.get_table().unwrap();
    assert_eq!(table.get_all().unwrap().len(), 100);
    assert_eq!(table.get("user50").unwrap(), 50);
}

#[test]
fn delete_many_and_update_many() {
    let mut disk = Disk::new();
    let mut client = disk.open("t3");
    client.reset_table().unwrap();
    disk.save(&mut client.table);
    let table = client.get_table().unwrap();
    for i in 0..50 {
        table.insert(&i.to_string(), format!("P {}", i)).unwrap();
        disk.save(table);
    }
    table.delete_many(vec!["1", "2", "3"]).unwrap();
    disk.save(table);
    assert_eq!(table.records.len(), 47);
    table.update_many(vec![record("4", "P4u"), record("5", "P5u"), record("6", "P6u")]).unwrap();
    disk.save(table);
    assert_eq!(table.get("4").unwrap(), "P4u");
    assert_eq!(table.get("1").unwrap_err().code, MooErrorCodes::NotFound);
    assert_eq!(decode(&disk.bytes()).unwrap(), table.records);
}

#[test]
fn file_decodes_to_the_table_after_every_change() {
    let mut disk = Disk::new();
    let mut client = disk.open("agree");
    let table = client.get_table().unwrap();
    table.insert("a", "1".to_string()).unwrap();
    disk.save(table);
    assert_eq!(decode(&disk.bytes()).unwrap(), table.records);
    table.insert_many(vec![record("b", "2"), record("c", "a longer value")]).unwrap();
    disk.save(table);
    assert_eq!(decode(&disk.bytes()).unwrap(), table.records);
    table.update("c", "3".to_string()).unwrap();
    disk.save(table);
    assert_eq!(decode(&disk.bytes()).unwrap(), table.records);
    assert_eq!(disk.bytes().len(), encode(&table.records).unwrap().len());
    table.delete("a").unwrap();
    disk.save(table);
    assert_eq!(decode(&disk.bytes()).unwrap(), table.records);
    assert_eq!(disk.bytes().len(), encode(&table.records).unwrap().len());
    table.delete_all().unwrap();
    disk.save(table);
    assert_eq!(disk.bytes().len(), 0);
    assert!(disk.open("agree").table.records.is_empty());
}

#[test]
fn the_codec_of_these_tests_round_trips() {
    let records = vec![record("a", "A"), record("quote\"d", "line\nbreak"), record("", "")];
    assert_eq!(decode(&encode(&records).unwrap()).unwrap(), records);
}

#[test]
fn reset_then_get_all_is_not_found_and_the_file_is_empty() {
    let mut disk = Disk::new();
    let mut client = two_records(&mut disk);
    assert!(!disk.bytes().is_empty());
    client.reset_table().unwrap();
    disk.save(&mut client.table);
    assert_eq!(client.get_table().unwrap().get_all().unwrap_err().code, MooErrorCodes::NotFound);
    assert_eq!(disk.bytes().len(), 0);
}

#[test]
fn reopen_yields_what_was_persisted() {
    let mut disk = Disk::new();
    let records = {
        let mut client = two_records(&mut disk);
        client.get_table().unwrap().update("a", "changed".to_string()).unwrap();
        disk.save(&mut client.table);
        client.table.records
    };
    let mut client = disk.open("t1");
    assert_eq!(client.get_table().unwrap().get_all().unwrap(), records);
}

#[test]
fn decimal_writes_numbers() {
    assert_eq!(decimal(0), "0");
    assert_eq!(decimal(7), "7");
    assert_eq!(decimal(10), "10");
    assert_eq!(decimal(1234567890), "1234567890");
    assert_eq!(decimal(usize::MAX), usize::MAX.to_string());
}

#[test]
fn owned_and_lists_work_on_keys() {
    let keys = owned(&vec!["a", "b"]);
    assert_eq!(keys, vec!["a".to_string(), "b".to_string()]);
    assert!(lists(&keys, &"b".to_string()));
    assert!(!lists(&keys, &"c".to_string()));
    assert!(!lists(&Vec::new(), &"a".to_string()));
}
