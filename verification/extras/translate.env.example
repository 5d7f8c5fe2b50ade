base_url=http://192.168.1.179:11434/v1
model=qwen3.6:35b
api_key=ollama
