use pahoa::net::tls::{
    certified_key, checked_chain, checked_key, load_chain, load_key, usable, FileStamp, KeyDer,
    Look, Serving, Stamp,
};

const FIRST: &str = "-----BEGIN CERTIFICATE-----\n\
MIIBRDCB96ADAgECAhQqZLUMeX6gTnui44agTgVyc1GJTTAFBgMrZXAwFzEVMBMG\n\
A1UEAwwMcm9vbS5leGFtcGxlMCAXDTI2MTExNTAyMTQyOFoYDzIxMjYxMDIyMDIx\n\
NDI4WjAXMRUwEwYDVQQDDAxyb29tLmV4YW1wbGUwKjAFBgMrZXADIQDqSmxj4pxS\n\
Cr71UHsTLsX5lUd2rr6+e5JCHuppFEbSLKNTMFEwHQYDVR0OBBYEFExezkAjoDQe\n\
4qz/zE0XFUqFTwLlMB8GA1UdIwQYMBaAFExezkAjoDQe4qz/zE0XFUqFTwLlMA8G\n\
A1UdEwEB/wQFMAMBAf8wBQYDK2VwA0EATgtLKDVgOvfw8aQ+s2JIkvsLbtC03kTx\n\
d56Z5Wdb7i5siC07838HeJWB8Fb1PhmPQvb51ui87ot+CfFuPvTDDw==\n\
-----END CERTIFICATE-----\n";

const SECOND: &str = "-----BEGIN CERTIFICATE-----\n\
MIIBSDCB+6ADAgECAhRwtUT7fu0U7d1oQsQTYG+XXU/BgjAFBgMrZXAwGTEXMBUG\n\
A1UEAwwOc2Vjb25kLmV4YW1wbGUwIBcNMjYxMTE1MDIxNTA0WhgPMjEyNjEwMjIw\n\
MjE1MDRaMBkxFzAVBgNVBAMMDnNlY29uZC5leGFtcGxlMCowBQYDK2VwAyEAE5j2\n\
LG0aRXxRumpLXz29L2n8qTIWIY3ImX5Ba9F9k8qjUzBRMB0GA1UdDgQWBBQuMpi4\n\
BGG90jl6PbJoVV7VHJLx5zAfBgNVHSMEGDAWgBQuMpi4BGG90jl6PbJoVV7VHJLx\n\
5zAPBgNVHRMBAf8EBTADAQH/MAUGAytlcANBAG/yYieVe31JNLoXdf3Lt5OIGayy\n\
qxlyge9xxURXI82X3g3Brw7cT8z7APBYxK7n4q5LifqeXY3+hILdeiNrGg4=\n\
-----END CERTIFICATE-----\n";

/// Bytes as the body of a PEM section.
fn base64(bytes: &[u8]) -> String {
    const DIGITS: &[u8] = b"ABCDEFGHIJKLMNOPQRSTUVWXYZabcdefghijklmnopqrstuvwxyz0123456789+/";
    let mut out = String::new();
    for chunk in bytes.chunks(3) {
        let n = (chunk[0] as usize) << 16
            | (*chunk.get(1).unwrap_or(&0) as usize) << 8
            | *chunk.get(2).unwrap_or(&0) as usize;
        for i in 0..4 {
            if i <= chunk.len() {
                out.push(DIGITS[n >> (18 - 6 * i) & 63] as char);
            } else {
                out.push('=');
            }
        }
    }
    out
}

fn section(label: &str, bytes: &[u8]) -> String {
    format!("-----BEGIN {label}-----\n{}\n-----END {label}-----\n", base64(bytes))
}

/// The key of a certificate, whose secret is one byte over and over.
fn secret(byte: u8) -> String {
    let mut der = vec![
        0x30, 0x2e, 0x02, 0x01, 0x00, 0x30, 0x05, 0x06, 0x03, 0x2b, 0x65, 0x70, 0x04, 0x22, 0x04,
        0x20,
    ];
    der.extend([byte; 32]);
    section("PRIVATE KEY", &der)
}

/// A pair of files, and what serves.
struct Mount {
    cert: String,
    key: String,
    writes: u64,
    serving: Serving,
    leaf: Vec<u8>,
    loads: u32,
}

fn stamp(writes: u64) -> Stamp {
    let file = FileStamp { mtime: 0, mtime_nsec: 0, len: 0, ino: writes };
    Stamp { cert: file, key: file }
}

impl Mount {
    fn new(cert: &str, key: &str) -> Mount {
        let made = certified_key("tls.crt", cert.as_bytes(), "tls.key", key.as_bytes());
        Mount {
            cert: cert.to_string(),
            key: key.to_string(),
            writes: 0,
            serving: Serving::new(stamp(0)),
            leaf: made.expect("loads").into_key().cert[0].to_vec(),
            loads: 1,
        }
    }

    fn write(&mut self, cert: &str, key: &str) {
        self.cert = cert.to_string();
        self.key = key.to_string();
        self.writes += 1;
    }

    fn reload_if_changed(&mut self) {
        let seen = stamp(self.writes);
        if self.serving.look(Some(seen)) == Look::Keep {
            return;
        }
        let made =
            certified_key("tls.crt", self.cert.as_bytes(), "tls.key", self.key.as_bytes());
        self.loads += 1;
        self.serving.loaded(seen, made.is_ok());
        if let Ok(made) = made {
            self.leaf = made.into_key().cert[0].to_vec();
        }
    }
}

#[test]
fn a_renewal_is_picked_up_without_rebuilding_anything() {
    let mut mount = Mount::new(FIRST, &secret(7));
    let first = mount.leaf.clone();

    mount.write(SECOND, &secret(8));
    mount.reload_if_changed();
    assert_ne!(mount.leaf, first, "the renewal should be serving");
    assert_eq!(mount.leaf, load_chain("x", SECOND.as_bytes()).unwrap()[0]);
}

#[test]
fn a_chain_that_does_not_match_its_key_leaves_the_previous_one_serving() {
    let mut mount = Mount::new(FIRST, &secret(7));
    let good = mount.leaf.clone();

    mount.write(SECOND, &secret(7));
    mount.reload_if_changed();
    assert_eq!(mount.leaf, good, "a mismatched pair must not be adopted");
}

#[test]
fn a_half_written_certificate_leaves_the_previous_one_serving() {
    let mut mount = Mount::new(FIRST, &secret(7));
    let good = mount.leaf.clone();

    mount.write("-----BEGIN CERTIFICATE-----\n", &secret(7));
    mount.reload_if_changed();
    assert_eq!(mount.leaf, good);
}

#[test]
fn a_repaired_certificate_is_taken_on_the_following_tick() {
    let mut mount = Mount::new(FIRST, &secret(7));

    mount.write("rubbish", &secret(7));
    mount.reload_if_changed();

    mount.write(SECOND, &secret(8));
    mount.reload_if_changed();
    assert_eq!(mount.leaf, load_chain("x", SECOND.as_bytes()).unwrap()[0]);
}

#[test]
fn an_unreadable_pair_refuses_to_start_rather_than_serving() {
    assert!(certified_key("tls.crt", b"", "tls.key", b"").is_err());
}

#[test]
fn an_unchanged_pair_is_not_re_read() {
    let mut mount = Mount::new(FIRST, &secret(7));
    let only = mount.leaf.clone();
    mount.reload_if_changed();
    assert_eq!(mount.loads, 1, "should not have reloaded");
    assert_eq!(mount.leaf, only);
}

#[test]
fn a_file_is_read_section_by_section() {
    let both = format!("{FIRST}{}{SECOND}", section("PRIVATE KEY", &[1, 2, 3]));
    assert_eq!(load_chain("x", both.as_bytes()).unwrap().len(), 2);
    let pem = section("CERTIFICATE", &[1, 2, 3, 4]);
    assert_eq!(load_chain("x", pem.as_bytes()).unwrap(), [[1, 2, 3, 4]]);
    for (label, bytes) in [("PRIVATE KEY", [9u8]), ("EC PRIVATE KEY", [8]), ("RSA PRIVATE KEY", [7])]
    {
        let found = load_key("x", section(label, &bytes).as_bytes()).unwrap();
        match (label, found) {
            ("PRIVATE KEY", KeyDer::Pkcs8(b)) => assert_eq!(b, bytes),
            ("EC PRIVATE KEY", KeyDer::Sec1(b)) => assert_eq!(b, bytes),
            ("RSA PRIVATE KEY", KeyDer::Pkcs1(b)) => assert_eq!(b, bytes),
            _ => panic!("{label} was read as another kind"),
        }
    }
}

fn refused(cert: &str, key: &str) -> String {
    match certified_key("tls.crt", cert.as_bytes(), "tls.key", key.as_bytes()) {
        Ok(_) => panic!("it should not load"),
        Err(e) => e,
    }
}

#[test]
fn a_pair_is_refused_by_what_is_wrong_with_it() {
    assert_eq!(refused("", ""), "tls.crt: no PEM certificate in this file");
    assert_eq!(refused(FIRST, ""), "tls.key: no PEM private key in this file");
    let odd = refused(FIRST, &secret(8));
    assert!(odd.starts_with("tls.crt: unusable certificate and key: "), "{odd}");
    assert_eq!(checked_chain("a", Err("broken".to_string())).unwrap_err(), "broken");
    assert!(checked_key("a", Err("broken".to_string())).is_err_and(|e| e == "broken"));
    assert!(checked_key("a", Ok(None)).is_err_and(|e| e == "a: no PEM private key in this file"));
    assert!(checked_chain("a", Ok(vec![])).is_err());
    let said = usable("a", Err("mismatch".to_string()));
    assert!(said.is_err_and(|e| e == "a: unusable certificate and key: mismatch"));
    let made = certified_key("a", FIRST.as_bytes(), "b", secret(7).as_bytes());
    assert!(usable("a", made).is_ok());
}
