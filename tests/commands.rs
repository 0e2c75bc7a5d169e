use libosdp::{str_to_channel_id, Channel, OsdpError};
use multiqueue::{BroadcastReceiver, BroadcastSender};
use std::sync::Mutex;

type Result<T> = core::result::Result<T, OsdpError>;

/// An in-process bus: what one end writes, every other clone reads.
struct ThreadBus {
    id: i32,
    send: Mutex<BroadcastSender<Vec<u8>>>,
    recv: Mutex<BroadcastReceiver<Vec<u8>>>,
}

impl ThreadBus {
    fn new(name: &str) -> Self {
        let (send, recv) = multiqueue::broadcast_queue(4);
        Self {
            id: str_to_channel_id(name),
            send: Mutex::new(send),
            recv: Mutex::new(recv),
        }
    }
}

impl Clone for ThreadBus {
    fn clone(&self) -> Self {
        let send = Mutex::new(self.send.lock().unwrap().clone());
        let recv = Mutex::new(self.recv.lock().unwrap().add_stream());
        Self { id: self.id, send, recv }
    }
}

impl Channel for ThreadBus {
    fn read(&mut self, buf: &mut [u8]) -> Result<usize> {
        let v = self
            .recv
            .lock()
            .unwrap()
            .try_recv()
            .map_err(|_| OsdpError::Channel("bus"))?;
        buf[..v.len()].copy_from_slice(&v[..]);
        Ok(v.len())
    }

    fn write(&mut self, buf: &[u8]) -> Result<usize> {
        self.send
            .lock()
            .unwrap()
            .try_send(buf.to_vec())
            .map_err(|_| OsdpError::Channel("bus"))?;
        Ok(buf.len())
    }

    fn flush(&mut self) -> Result<()> {
        Ok(())
    }

    fn get_id(&self) -> i32 {
        self.id
    }
}

#[test]
fn test_thread_bus_channel() -> Result<()> {
    let mut a = ThreadBus::new("conn-0");
    let mut b = a.clone();
    let mut c = a.clone();

    let buf_write = vec![0, 1, 2, 3, 4, 5, 6, 7, 8, 9];
    let mut buf_read = [0; 100];
    assert_eq!(a.write(&buf_write)?, buf_write.len());
    assert_eq!(b.read(&mut buf_read)?, buf_write.len());
    assert_eq!(c.read(&mut buf_read)?, buf_write.len());
    Ok(())
}

#[test]
fn thread_bus_clones_share_the_channel_id() {
    let a = ThreadBus::new("conn-0");
    let b = a.clone();
    assert_eq!(a.get_id(), b.get_id());
    assert_eq!(a.get_id(), str_to_channel_id("conn-0"));
}
