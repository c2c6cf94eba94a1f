use zebra::ipc::MessageData;
use zebra::librs::ipc::{Message, MessageBuilder};
use zebra::librs::path::{Path, PathComponent};
use zebra::log::{AtomicQueue, Reply as LogReply, Request as LogRequest, LOG_SERVER_ID};
use zebra::power::{to_exit_code, ExitType};
use zebra::uart::{Interrupt, LineStatus, WordLength};
use zebra::elf::header::{Class, Data, Header, IdentifierHeader};
use zebra::elf::program::{convert_flags, ProgramFlags};
use zebra::pte::EntryAttributes;
use zebra::virtio::{
    DescriptorFlags, DescriptorPool, FeatureFlags, Queue, Reply as DiskReply,
    Request as DiskRequest, QUEUE_LEN, VIRTIO_SERVER_ID,
};

#[test]
fn message_data_from_u64_slice() {
    let d = MessageData::from_slice(&[1, 2, 3]);
    assert_eq!(d.data, [1, 2, 3, 0, 0]);
    let d = MessageData::from_u64(9);
    assert_eq!(d.data, [9, 0, 0, 0, 0]);
    assert_eq!(d.as_slice(), &[9, 0, 0, 0, 0]);
}

#[test]
fn message_builder_assembles() {
    let m = MessageBuilder::new(7)
        .with_identifier(42)
        .with_data(MessageData::from_u64(5))
        .build();
    assert_eq!(m, Message::new(7, 42, MessageData::from_u64(5)));
}

#[test]
fn log_protocol_round_trip() {
    let data = MessageData::from_u64(0x48); // 'H'
    let msg = LogRequest::Write { data }.to_message();
    assert_eq!(msg.server_id, LOG_SERVER_ID);
    assert_eq!(msg.identifier, 1);
    assert!(matches!(
        LogRequest::from_message(msg),
        LogRequest::Write { .. }
    ));
    assert_eq!(LogRequest::Read.to_message().identifier, 2);
    assert_eq!(LogReply::DataNotReady.to_identifier(), 0);
    assert_eq!(LogReply::DataReady { data }.to_identifier(), 1);
}

#[test]
fn byte_queue_fifo() {
    let mut q = AtomicQueue::new();
    assert_eq!(q.pop(), None);
    q.push(10);
    q.push(20);
    assert_eq!(q.pop(), Some(10));
    assert_eq!(q.pop(), Some(20));
    assert_eq!(q.pop(), None);
}

#[test]
fn path_components() {
    let p = Path::new(b"/usr/./bin/..".to_vec());
    let parts = p.components();
    assert_eq!(parts.len(), 8);
    assert!(matches!(parts[0], PathComponent::Separator));
    assert!(matches!(&parts[1], PathComponent::Normal(n) if n == b"usr"));
    assert!(matches!(parts[2], PathComponent::Separator));
    assert!(matches!(parts[3], PathComponent::CurrentDir));
    assert!(matches!(&parts[5], PathComponent::Normal(n) if n == b"bin"));
    assert!(matches!(parts[7], PathComponent::ParentDir));
    assert!(p.is_absolute());
    assert!(!p.is_relative());
    assert_eq!(p.depth(), 4);
}

#[test]
fn path_file_and_directory() {
    assert!(Path::new(b"etc/passwd".to_vec()).is_file());
    assert!(Path::new(b"etc/".to_vec()).is_directory());
    assert!(Path::new(b"..".to_vec()).is_directory());
    assert!(Path::new(b"name".to_vec()).is_relative());
}

#[test]
fn path_component_parse_cases() {
    assert_eq!(PathComponent::parse(b""), None);
    assert_eq!(PathComponent::parse(b"/x"), Some((1, PathComponent::Separator)));
    assert_eq!(PathComponent::parse(b".."), Some((2, PathComponent::ParentDir)));
    assert_eq!(PathComponent::parse(b"./"), Some((1, PathComponent::CurrentDir)));
    assert_eq!(
        PathComponent::parse(b"ab/c"),
        Some((2, PathComponent::Normal(b"ab".to_vec())))
    );
}

#[test]
fn exit_codes() {
    assert_eq!(to_exit_code(1), 0x0001_3333);
    assert_eq!(ExitType::Success.into_code(), 0x5555);
    assert_eq!(ExitType::Reboot.into_code(), 0x7777);
    assert_eq!(ExitType::Other(3).into_code(), 0x0003_3333);
    assert!(matches!(ExitType::from_code(0x5555), ExitType::Success));
    assert!(matches!(ExitType::from_code(0x7777), ExitType::Reboot));
}

#[test]
fn uart_bits() {
    assert!(Interrupt::with_enabled(true).enabled());
    assert!(!Interrupt::with_enabled(false).enabled());
    assert!(LineStatus { raw: 1 }.data_ready());
    assert!(!LineStatus { raw: 2 }.data_ready());
    assert!(LineStatus { raw: 2 }.overrun_error());
    assert_eq!(WordLength::Eight.raw_value(), 3);
}

#[test]
fn virtio_protocol() {
    let m = DiskRequest::ReadDisk.to_message(MessageData::from_u64(4));
    assert_eq!(m.server_id, VIRTIO_SERVER_ID);
    assert_eq!(m.identifier, 1);
    assert!(matches!(DiskRequest::from_message(&m), DiskRequest::ReadDisk));
    let r = DiskReply::DataReady.to_message(55, MessageData::from_u64(1));
    assert_eq!(r.identifier, 1);
    assert_eq!(DiskReply::from_message(&r), Some(DiskReply::DataReady));
    assert!(DescriptorFlags { raw: 3 }.next());
    assert!(DescriptorFlags { raw: 3 }.write());
    assert!(!DescriptorFlags { raw: 3 }.indirect());
    assert!(FeatureFlags { raw: 32 }.read_only());
    assert_eq!(FeatureFlags { raw: 32 }.accepted().raw, 0);
}

#[test]
fn descriptor_pool_first_fit() {
    let mut pool = DescriptorPool::new();
    let a = pool.allocate_descriptor().unwrap();
    let b = pool.allocate_descriptor().unwrap();
    assert_eq!(a, 0);
    assert_eq!(b, 1);
    pool.free_descriptor(a);
    assert_eq!(pool.allocate_descriptor(), Some(0));
    let q = Queue::new();
    assert_eq!(q.descriptors.len(), QUEUE_LEN);
}

#[test]
fn elf_header_parsing_details() {
    let mut bytes = vec![0u8; 64];
    bytes[0] = 0x7f;
    bytes[1] = b'E';
    bytes[2] = b'L';
    bytes[3] = b'F';
    bytes[4] = 2;
    bytes[5] = 1;
    bytes[6] = 1;
    bytes[7] = 0;
    bytes[16] = 2; // executable
    bytes[18] = 0xf3; // RISC-V
    bytes[24..32].copy_from_slice(&0x1234u64.to_le_bytes());
    let ident = IdentifierHeader::parse(&bytes).unwrap();
    assert_eq!(ident.class, Class::Bits64);
    assert_eq!(ident.data, Data::LittleEndian);
    let header = Header::parse(&bytes).unwrap();
    assert_eq!(header.primary.entry_point_64, Some(0x1234));
    assert_eq!(header.endianness(), Data::LittleEndian);
}

#[test]
fn elf_program_flags() {
    assert_eq!(
        convert_flags(&ProgramFlags { raw: 4 }),
        Some(EntryAttributes::UserRead)
    );
    assert_eq!(
        convert_flags(&ProgramFlags { raw: 5 }),
        Some(EntryAttributes::UserReadExecute)
    );
    assert_eq!(
        convert_flags(&ProgramFlags { raw: 6 }),
        Some(EntryAttributes::UserReadWrite)
    );
    assert_eq!(convert_flags(&ProgramFlags { raw: 2 }), None);
    assert_eq!(convert_flags(&ProgramFlags { raw: 7 }), None);
}
