# realm_virt

Verified logic for virtual machines that run as realms, on the host and in the guest.

- `src/virtmgr`: configuration and command line of virtual machines that kvmtool runs, their
  control socket, their life cycle and what is reported when they exit.
- `src/vsock_proxy`: a proxy between vsock connections of one virtual machine and TCP or UDP
  servers: who may connect and to where, the frames that carry datagrams over a stream, and the
  cache of resolved host names.
- `src/rsi`: requests to the driver of the realm services interface, and the claims, keys,
  signatures and digests of attestation tokens.
- `src/rmm_measure.rs`: realm measurements and how they are extended.
- `src/microdroid`: what a payload may ask of its virtual machine, and fetching confidential data
  into its encrypted store.
- `src/text.rs`, `src/bytes.rs`, `src/path.rs`, `src/assoc.rs`, `src/digest.rs`: what the others
  share.

Sockets, processes, threads, files and the driver itself are handled in `app/`. Where the library
decides and the application acts in turn, the library is a state machine: each step takes what
happened and returns what is done next.
