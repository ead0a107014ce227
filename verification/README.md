# aios_kernel

The core of AIOS, a kernel whose unit of work is the agent, as a library
verified with Verus.

- `src/` holds the kernel's logic with its contracts and proofs:
  capabilities, quotas and revocation; the agent scheduler and lifecycle;
  physical frames, the agent memory pool, agent address ranges, page-fault
  handling as a state machine, and the memory fabric; interrupts, timers,
  processors and time keeping; error handling, retries, circuit breakers and
  degradation; auditing, the hash-chained audit log and attestation; system
  call dispatch; the bus, storage, network, TPM, SGX and enclave drivers;
  the integer parts of the adaptive and self-healing subsystems; and the
  wire format of kernel messages. Functions named `law_*` state properties
  that hold across operations.
- `app/` holds what the verifier does not see: port and MMIO access, the
  interrupt and fault entry points, the global instances behind spin locks,
  the serial console, the predictors that compute with floats, and the
  loops that carry out what the library decides (page faults, system-call
  services, lifecycle hooks).
- `tests/` exercises the library on concrete values.

`x86_64` is used from `src/` for two address computations, behind trusted
wrappers whose contracts are stated in their doc comments.
